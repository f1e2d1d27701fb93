//! Rendering of tables of ordered values as glyph grids: each distinct
//! value maps to one glyph of a brightness gradient, in value order.

use crate::helper::axes::joined_lines;
use crate::helper::axes::lemma_joined_lines_push;
use crate::helper::charset::gradient_chars::str_glyphs;
use crate::helper::charset::single_char_glyphs;
use crate::helper::math::subdivide_sample;
use crate::helper::math::subdivide_round;
use vstd::laws_cmp::obeys_cmp;
use vstd::laws_eq::obeys_concrete_eq;
use vstd::prelude::*;
use vstd::std_specs::cmp::OrdSpec;
use vstd::std_specs::cmp::PartialOrdSpec;
use vstd::string::StringExecFns;
use core::cmp::Ordering;

verus! {

/// The `PartialEq` and `Ord` implementations of `T` are faithfully
/// described by their specifications, order `T` totally, and agree with
/// equality. Integer and character types satisfy all of this.
pub open spec fn value_order_obeyed<T: Ord>() -> bool {
    &&& obeys_cmp::<T>()
    &&& obeys_concrete_eq::<T>()
}

/// Some cell of the table holds `x`.
pub open spec fn table_contains<T>(arr: Seq<Vec<T>>, x: T) -> bool {
    exists|i: int, j: int| 0 <= i < arr.len() && 0 <= j < arr[i]@.len() && arr[i]@[j] == x
}

/// The total number of cells of the table.
pub open spec fn table_size<T>(arr: Seq<Vec<T>>) -> int
    decreases arr.len(),
{
    if arr.len() == 0 {
        0
    } else {
        table_size(arr.drop_last()) + arr.last()@.len()
    }
}

/// The sequence is strictly increasing under the order of `T`.
pub open spec fn strictly_sorted<T: Ord>(s: Seq<T>) -> bool {
    forall|a: int, b: int|
        0 <= a < b < s.len() ==> #[trigger] s[a].cmp_spec(&s[b]) == Ordering::Less
}

/// `sd` lists exactly the values of the table, in strictly increasing
/// order.
pub open spec fn is_sorted_values_of<T: Ord>(sd: Seq<T>, arr: Seq<Vec<T>>) -> bool {
    &&& strictly_sorted(sd)
    &&& forall|k: int| 0 <= k < sd.len() ==> table_contains(arr, #[trigger] sd[k])
    &&& forall|i: int, j: int|
        0 <= i < arr.len() && 0 <= j < arr[i]@.len() ==> sd.contains(#[trigger] arr[i]@[j])
}

/// Removing the table rows one by one never loses cells.
proof fn lemma_table_size_take<T>(arr: Seq<Vec<T>>, n: int)
    requires
        0 <= n <= arr.len(),
    ensures
        table_size(arr.take(n)) + arr[n as int]@.len() == table_size(arr.take(n + 1)) || n
            == arr.len(),
    decreases arr.len(),
{
    if n < arr.len() {
        assert(arr.take(n + 1).drop_last() =~= arr.take(n));
        assert(arr.take(n + 1).last() == arr[n]);
    }
}

/// Finds the distinct elements of a table, in order of first occurrence.
///
/// The result never has more entries than the table has cells; when the
/// equality of `T` is faithful, it holds each value of the table exactly
/// once.
pub fn distinct_in_table<T: Eq + core::hash::Hash + Copy>(arr: &Vec<Vec<T>>) -> (r: Vec<T>)
    ensures
        r@.len() <= table_size(arr@),
        obeys_concrete_eq::<T>() ==> {
            &&& r@.no_duplicates()
            &&& forall|k: int| 0 <= k < r@.len() ==> table_contains(arr@, #[trigger] r@[k])
            &&& forall|i: int, j: int|
                0 <= i < arr@.len() && 0 <= j < arr@[i]@.len() ==> r@.contains(
                    #[trigger] arr@[i]@[j],
                )
        },
{
    let mut r: Vec<T> = Vec::new();
    let mut i: usize = 0;
    while i < arr.len()
        invariant
            i <= arr@.len(),
            r@.len() <= table_size(arr@.take(i as int)),
            obeys_concrete_eq::<T>() ==> {
                &&& r@.no_duplicates()
                &&& forall|k: int| 0 <= k < r@.len() ==> table_contains(arr@, #[trigger] r@[k])
                &&& forall|a: int, j: int|
                    0 <= a < i && 0 <= j < arr@[a]@.len() ==> r@.contains(#[trigger] arr@[a]@[j])
            },
        decreases arr@.len() - i,
    {
        let row_len: usize = arr[i].len();
        let mut j: usize = 0;
        while j < row_len
            invariant
                i < arr@.len(),
                row_len == arr@[i as int]@.len(),
                j <= row_len,
                r@.len() <= table_size(arr@.take(i as int)) + j,
                obeys_concrete_eq::<T>() ==> r@.no_duplicates(),
                obeys_concrete_eq::<T>() ==> forall|k: int|
                    0 <= k < r@.len() ==> table_contains(arr@, #[trigger] r@[k]),
                obeys_concrete_eq::<T>() ==> forall|a: int, b: int|
                    0 <= a < i && 0 <= b < arr@[a]@.len() ==> r@.contains(#[trigger] arr@[a]@[b]),
                obeys_concrete_eq::<T>() ==> forall|b: int|
                    0 <= b < j ==> r@.contains(#[trigger] arr@[i as int]@[b]),
            decreases row_len - j,
        {
            let x: T = arr[i][j];
            let ghost r0 = r@;
            match find_eq(&r, x) {
                Some(_) => {
                },
                None => {
                    r.push(x);
                },
            }
            proof {
                if obeys_concrete_eq::<T>() {
                    assert(table_contains(arr@, arr@[i as int]@[j as int]));
                    if r@.len() > r0.len() {
                        assert(r@ =~= r0.push(arr@[i as int]@[j as int]));
                        assert(r@.no_duplicates());
                        assert(r@[r0.len() as int] == arr@[i as int]@[j as int]);
                        assert(r@.contains(arr@[i as int]@[j as int]));
                    }
                    assert forall|y: T| r0.contains(y) implies r@.contains(y) by {
                        let idx = choose|idx: int| 0 <= idx < r0.len() && r0[idx] == y;
                        assert(r@[idx] == y);
                    }
                }
            }
            j = j + 1;
        }
        proof {
            lemma_table_size_take(arr@, i as int);
        }
        i = i + 1;
    }
    proof {
        assert(arr@.take(arr@.len() as int) =~= arr@);
    }
    r
}

/// Finds the index of an element equal to `x`, if any.
fn find_eq<T: PartialEq + Copy>(v: &Vec<T>, x: T) -> (r: Option<usize>)
    ensures
        r matches Some(p) ==> p < v@.len(),
        obeys_concrete_eq::<T>() ==> match r {
            Some(p) => p < v@.len() && v@[p as int] == x,
            None => !v@.contains(x),
        },
{
    let mut p: usize = 0;
    while p < v.len()
        invariant
            p <= v@.len(),
            obeys_concrete_eq::<T>() ==> forall|q: int| 0 <= q < p ==> v@[q] != x,
        decreases v@.len() - p,
    {
        let hit = v[p].eq(&x);
        proof {
            reveal(vstd::laws_eq::obeys_concrete_eq);
        }
        if hit {
            return Some(p);
        }
        p = p + 1;
    }
    None
}

/// Sorts the distinct values of a vector into strictly increasing order.
///
/// The result never has more entries than the input; when the order of `T`
/// is faithful, it holds each value of the input exactly once, in
/// increasing order.
pub fn sorted_distinct<T: Ord + Copy>(v: &Vec<T>) -> (r: Vec<T>)
    ensures
        r@.len() <= v@.len(),
        value_order_obeyed::<T>() ==> {
            &&& strictly_sorted(r@)
            &&& forall|x: T| r@.contains(x) <==> v@.contains(x)
        },
{
    let mut r: Vec<T> = Vec::new();
    let mut i: usize = 0;
    while i < v.len()
        invariant
            i <= v@.len(),
            r@.len() <= i,
            value_order_obeyed::<T>() ==> {
                &&& strictly_sorted(r@)
                &&& forall|x: T| r@.contains(x) <==> v@.take(i as int).contains(x)
            },
        decreases v@.len() - i,
    {
        let x: T = v[i];
        let ghost r0 = r@;
        let mut p: usize = 0;
        while p < r.len() && r[p].lt(&x)
            invariant
                p <= r@.len(),
                r@ == r0,
                value_order_obeyed::<T>() ==> forall|q: int|
                    0 <= q < p ==> #[trigger] r@[q].cmp_spec(&x) == Ordering::Less,
            decreases r@.len() - p,
        {
            proof {
                reveal(vstd::laws_cmp::obeys_cmp_partial_ord);
                reveal(vstd::laws_cmp::obeys_cmp_ord);
            }
            p = p + 1;
        }
        proof {
            reveal(vstd::laws_cmp::obeys_cmp_partial_ord);
            reveal(vstd::laws_cmp::obeys_cmp_ord);
        }
        let present: bool = if p < r.len() {
            r[p].eq(&x)
        } else {
            false
        };
        if !present {
            r.insert(p, x);
            proof {
                r0.insert_ensures(p as int, x);
            }
        }
        proof {
            if value_order_obeyed::<T>() {
                reveal(vstd::laws_eq::obeys_concrete_eq);
                reveal(vstd::laws_cmp::obeys_cmp_ord);
                reveal(vstd::laws_cmp::obeys_cmp_partial_ord);
                reveal(vstd::laws_cmp::obeys_partial_cmp_spec_properties);
                assert(v@.take(i + 1) =~= v@.take(i as int).push(x));
                if !present {
                    if p < r0.len() {
                        assert(r0[p as int].cmp_spec(&x) != Ordering::Less);
                        assert(r0[p as int].cmp_spec(&x) != Ordering::Equal);
                        assert(r0[p as int].cmp_spec(&x) == Ordering::Greater);
                    }
                    assert forall|a: int, b: int| 0 <= a < b < r@.len() implies #[trigger] r@[a].cmp_spec(
                        &r@[b],
                    ) == Ordering::Less by {
                        if a < p && b == p {
                            assert(r@[a] == r0[a]);
                            assert(r@[b] == x);
                        } else if a == p && b > p {
                            assert(r@[b] == r0[b - 1]);
                            assert(x.cmp_spec(&r0[b - 1]) == Ordering::Less);
                        } else if a < p && b > p {
                            assert(r@[a] == r0[a] && r@[b] == r0[b - 1]);
                        } else if a > p && b > p {
                            assert(r@[a] == r0[a - 1] && r@[b] == r0[b - 1]);
                        }
                    }
                    assert forall|x2: T| r@.contains(x2) <==> v@.take(i + 1).contains(x2) by {
                        if r@.contains(x2) {
                            let k = choose|k: int| 0 <= k < r@.len() && r@[k] == x2;
                            if k < p {
                                assert(r0.contains(x2));
                            } else if k == p {
                                assert(v@.take(i + 1).last() == x2);
                            } else {
                                assert(r0[k - 1] == x2);
                                assert(r0.contains(x2));
                            }
                        }
                        if v@.take(i + 1).contains(x2) {
                            if v@.take(i as int).contains(x2) {
                                assert(r0.contains(x2));
                                let k = choose|k: int| 0 <= k < r0.len() && r0[k] == x2;
                                if k < p {
                                    assert(r@[k] == x2);
                                } else {
                                    assert(r@[k + 1] == x2);
                                }
                            } else {
                                assert(x2 == x);
                                assert(r@[p as int] == x);
                            }
                        }
                    }
                } else {
                    assert(r0[p as int] == x);
                    assert(r0.contains(x));
                    assert forall|x2: T| r@.contains(x2) <==> v@.take(i + 1).contains(x2) by {
                        if v@.take(i + 1).contains(x2) && !v@.take(i as int).contains(x2) {
                            assert(x2 == x);
                        }
                    }
                }
            }
        }
        i = i + 1;
    }
    proof {
        assert(v@.take(v@.len() as int) =~= v@);
    }
    r
}

/// The index into the gradient used for the value at position `pos` of the
/// `n` sorted distinct values: the positions are spread evenly over the
/// gradient. With a single value the degenerate spread pins the index to 0.
pub open spec fn glyph_index(n: int, chrs_len: int, pos: int) -> int {
    if n <= 1 {
        0
    } else {
        subdivide_sample(0, chrs_len - 1, n, pos)
    }
}

/// The views of a list of string slices.
pub open spec fn str_views(chrs: Seq<&str>) -> Seq<Seq<char>> {
    chrs.map_values(|p: &str| p@)
}

/// One table row rendered as characters: each cell contributes the glyph
/// of its value's position among the sorted distinct values `sd`.
pub open spec fn rendered_row<T: Ord>(row: Seq<T>, sd: Seq<T>, glyphs: Seq<Seq<char>>) -> Seq<char>
    decreases row.len(),
{
    if row.len() == 0 {
        Seq::<char>::empty()
    } else {
        rendered_row(row.drop_last(), sd, glyphs) + glyphs[glyph_index(
            sd.len() as int,
            glyphs.len() as int,
            sd.index_of(row.last()),
        )]
    }
}

/// A whole table rendered as newline-separated rows.
pub open spec fn rendered_table<T: Ord>(
    arr: Seq<Vec<T>>,
    sd: Seq<T>,
    glyphs: Seq<Seq<char>>,
) -> Seq<char> {
    joined_lines(Seq::new(arr.len(), |i: int| rendered_row(arr[i]@, sd, glyphs)))
}

/// In a strictly sorted sequence an element occurs at exactly one index.
proof fn lemma_sorted_index_of<T: Ord>(sd: Seq<T>, p: int, x: T)
    requires
        value_order_obeyed::<T>(),
        strictly_sorted(sd),
        0 <= p < sd.len(),
        sd[p] == x,
    ensures
        sd.index_of(x) == p,
{
    reveal(vstd::laws_eq::obeys_concrete_eq);
    reveal(vstd::laws_cmp::obeys_cmp_ord);
    reveal(vstd::laws_cmp::obeys_cmp_partial_ord);
    reveal(vstd::laws_cmp::obeys_partial_cmp_spec_properties);
    assert(sd.contains(x));
    let q = sd.index_of(x);
    assert(0 <= q < sd.len() && sd[q] == x);
    if q != p {
        assert(x.partial_cmp_spec(&x) == Some(Ordering::Equal));
        assert(x.cmp_spec(&x) == Ordering::Equal);
    }
}

/// Plots a table as a string: every distinct value of the table maps to a
/// glyph of the given gradient, spread evenly, smaller values first.
///
/// Each table row becomes one line of glyphs; rows are joined by newlines.
pub fn array_plot_string_custom_chars<T: Ord + core::hash::Hash + Copy>(
    arr: &Vec<Vec<T>>,
    chrs: Vec<&str>,
) -> (r: String)
    requires
        chrs@.len() >= 1,
        chrs@.len() <= i32::MAX,
        table_size(arr@) <= u32::MAX,
    ensures
        value_order_obeyed::<T>() ==> exists|sd: Seq<T>|
            #[trigger] is_sorted_values_of(sd, arr@) && r@ == rendered_table(
                arr@,
                sd,
                str_views(chrs@),
            ),
{
    let di = distinct_in_table(arr);
    let sd = sorted_distinct(&di);
    proof {
        if value_order_obeyed::<T>() {
            assert forall|k: int| 0 <= k < sd@.len() implies table_contains(
                arr@,
                #[trigger] sd@[k],
            ) by {
                assert(sd@.contains(sd@[k]));
                assert(di@.contains(sd@[k]));
                let q = choose|q: int| 0 <= q < di@.len() && di@[q] == sd@[k];
                assert(table_contains(arr@, di@[q]));
            }
            assert(is_sorted_values_of(sd@, arr@));
        }
    }
    let n: u32 = sd.len() as u32;
    let ref_idx: Vec<i32> = subdivide_round(0, chrs.len() as i32 - 1, n);
    let ghost glyphs = str_views(chrs@);
    let ghost rows = Seq::new(arr@.len(), |i: int| rendered_row(arr@[i]@, sd@, glyphs));

    let mut out = String::new();
    let mut i: usize = 0;
    while i < arr.len()
        invariant
            chrs@.len() >= 1,
            chrs@.len() <= i32::MAX,
            n == sd@.len(),
            ref_idx@.len() == n,
            n == 1 ==> ref_idx@[0] == 0,
            n >= 2 ==> forall|k: int|
                0 <= k < n ==> #[trigger] ref_idx@[k] == subdivide_sample(
                    0,
                    chrs@.len() - 1,
                    n as int,
                    k,
                ),
            n >= 2 ==> forall|k: int| 0 <= k < n ==> 0 <= #[trigger] ref_idx@[k] < chrs@.len(),
            value_order_obeyed::<T>() ==> is_sorted_values_of(sd@, arr@),
            glyphs == str_views(chrs@),
            rows == Seq::new(arr@.len(), |k: int| rendered_row(arr@[k]@, sd@, glyphs)),
            i <= arr@.len(),
            value_order_obeyed::<T>() ==> out@ == joined_lines(rows.take(i as int)),
        decreases arr@.len() - i,
    {
        let ghost out_before = out@;
        if i > 0 {
            out.append("\n");
        }
        proof {
            reveal_strlit("\n");
            assert("\n"@ =~= seq!['\n']);
        }
        let row_len: usize = arr[i].len();
        let mut j: usize = 0;
        while j < row_len
            invariant
                chrs@.len() >= 1,
                chrs@.len() <= i32::MAX,
                n == sd@.len(),
                ref_idx@.len() == n,
                n == 1 ==> ref_idx@[0] == 0,
                n >= 2 ==> forall|k: int|
                    0 <= k < n ==> #[trigger] ref_idx@[k] == subdivide_sample(
                        0,
                        chrs@.len() - 1,
                        n as int,
                        k,
                    ),
                n >= 2 ==> forall|k: int| 0 <= k < n ==> 0 <= #[trigger] ref_idx@[k] < chrs@.len(),
                value_order_obeyed::<T>() ==> is_sorted_values_of(sd@, arr@),
                glyphs == str_views(chrs@),
                i < arr@.len(),
                row_len == arr@[i as int]@.len(),
                j <= row_len,
                value_order_obeyed::<T>() ==> out@ == out_before + (if i > 0 {
                    seq!['\n']
                } else {
                    Seq::<char>::empty()
                }) + rendered_row(arr@[i as int]@.take(j as int), sd@, glyphs),
            decreases row_len - j,
        {
            let x: T = arr[i][j];
            let glyph: &str = match find_eq(&sd, x) {
                Some(p) => {
                    proof {
                        if value_order_obeyed::<T>() {
                            lemma_sorted_index_of(sd@, p as int, x);
                        }
                    }
                    chrs[ref_idx[p] as usize]
                },
                None => { chrs[0] },
            };
            out.append(glyph);
            proof {
                if value_order_obeyed::<T>() {
                    let rowv = arr@[i as int]@;
                    assert(rowv.take(j + 1) =~= rowv.take(j as int).push(rowv[j as int]));
                    assert(rowv.take(j + 1).drop_last() =~= rowv.take(j as int));
                    assert(sd@.contains(x));
                    assert(glyph@ == glyphs[glyph_index(
                        sd@.len() as int,
                        glyphs.len() as int,
                        sd@.index_of(x),
                    )]);
                }
            }
            j = j + 1;
        }
        proof {
            if value_order_obeyed::<T>() {
                assert(arr@[i as int]@.take(row_len as int) =~= arr@[i as int]@);
                lemma_joined_lines_push(rows.take(i as int), rows[i as int]);
                assert(rows.take(i as int).push(rows[i as int]) =~= rows.take(i + 1));
            }
        }
        i = i + 1;
    }
    proof {
        if value_order_obeyed::<T>() {
            assert(rows.take(arr@.len() as int) =~= rows);
            assert(is_sorted_values_of(sd@, arr@) && out@ == rendered_table(
                arr@,
                sd@,
                str_views(chrs@),
            ));
        }
    }
    out
}

/// A strictly sorted sequence has no duplicates.
proof fn lemma_strictly_sorted_no_duplicates<T: Ord>(s: Seq<T>)
    requires
        value_order_obeyed::<T>(),
        strictly_sorted(s),
    ensures
        s.no_duplicates(),
{
    reveal(vstd::laws_eq::obeys_concrete_eq);
    reveal(vstd::laws_cmp::obeys_cmp_ord);
    reveal(vstd::laws_cmp::obeys_cmp_partial_ord);
    reveal(vstd::laws_cmp::obeys_partial_cmp_spec_properties);
    assert forall|a: int, b: int| 0 <= a < s.len() && 0 <= b < s.len() && a != b implies s[a] != s[b] by {
        if s[a] == s[b] {
            let x = s[a];
            assert(x.partial_cmp_spec(&x) == Some(Ordering::Equal));
            assert(x.cmp_spec(&x) == Ordering::Equal);
            if a < b {
                assert(s[a].cmp_spec(&s[b]) == Ordering::Less);
            } else {
                assert(s[b].cmp_spec(&s[a]) == Ordering::Less);
            }
        }
    }
}

/// Two duplicate-free sequences over the same set of values have the same
/// length.
proof fn lemma_same_values_same_len<T>(a: Seq<T>, b: Seq<T>)
    requires
        a.no_duplicates(),
        b.no_duplicates(),
        forall|x: T| a.contains(x) <==> b.contains(x),
    ensures
        a.len() == b.len(),
{
    a.unique_seq_to_set();
    b.unique_seq_to_set();
    assert(a.to_set() =~= b.to_set());
}

/// The gradient used for a table with `n` distinct values: two-step for
/// up to two values, the ten-step ascii gradient for up to ten, and the
/// seventy-step ascii gradient beyond that.
pub open spec fn chosen_gradient(n: int) -> Seq<Seq<char>> {
    if n <= 2 {
        single_char_glyphs(" █"@)
    } else if n <= 10 {
        single_char_glyphs(" .:-=+*#%@"@)
    } else {
        single_char_glyphs(
            " .'`^\",:;Il!i><~+_-?][}{1)(|\\/tfjrxnuvczXYUJCLQ0OZmwqpdbkhao*#MW&8%B@$"@,
        )
    }
}

/// Plots a table as a string, picking a gradient character set sized to
/// the number of distinct values in the table: each distinct value maps to
/// a glyph, spread evenly over the gradient, smaller values first.
pub fn array_plot_string<T: Ord + core::hash::Hash + Copy>(arr: &Vec<Vec<T>>) -> (r: String)
    requires
        table_size(arr@) <= u32::MAX,
    ensures
        value_order_obeyed::<T>() ==> exists|sd: Seq<T>|
            #[trigger] is_sorted_values_of(sd, arr@) && r@ == rendered_table(
                arr@,
                sd,
                chosen_gradient(sd.len() as int),
            ),
{
    let binary_chars = str_glyphs(" █");
    let ascii_chars = str_glyphs(" .:-=+*#%@");
    let ascii_chars_large = str_glyphs(
        " .'`^\",:;Il!i><~+_-?][}{1)(|\\/tfjrxnuvczXYUJCLQ0OZmwqpdbkhao*#MW&8%B@$",
    );
    proof {
        reveal_strlit(" █");
        reveal_strlit(" .:-=+*#%@");
        reveal_strlit(" .'`^\",:;Il!i><~+_-?][}{1)(|\\/tfjrxnuvczXYUJCLQ0OZmwqpdbkhao*#MW&8%B@$");
        assert(binary_chars@.len() == binary_chars@.map_values(|p: &str| p@).len());
        assert(ascii_chars@.len() == ascii_chars@.map_values(|p: &str| p@).len());
        assert(ascii_chars_large@.len() == ascii_chars_large@.map_values(|p: &str| p@).len());
        assert(binary_chars@.len() == 2);
        assert(ascii_chars@.len() == 10);
        assert(ascii_chars_large@.len() == 70);
    }

    let di = distinct_in_table(arr);
    let dill: u32 = di.len() as u32;

    let chrs: Vec<&str> = if dill <= 2 {
        binary_chars
    } else if dill <= 10 {
        ascii_chars
    } else {
        ascii_chars_large
    };

    let r = array_plot_string_custom_chars(arr, chrs);
    proof {
        if value_order_obeyed::<T>() {
            let sd = choose|sd: Seq<T>|
                #[trigger] is_sorted_values_of(sd, arr@) && r@ == rendered_table(
                    arr@,
                    sd,
                    str_views(chrs@),
                );
            lemma_strictly_sorted_no_duplicates(sd);
            assert forall|x: T| sd.contains(x) implies di@.contains(x) by {
                let k = choose|k: int| 0 <= k < sd.len() && sd[k] == x;
                assert(table_contains(arr@, sd[k]));
                let (a, b): (int, int) = choose|a: int, b: int|
                    0 <= a < arr@.len() && 0 <= b < arr@[a]@.len() && arr@[a]@[b] == x;
                assert(di@.contains(arr@[a]@[b]));
            }
            assert forall|x: T| di@.contains(x) implies sd.contains(x) by {
                let k = choose|k: int| 0 <= k < di@.len() && di@[k] == x;
                assert(table_contains(arr@, di@[k]));
                let (a, b): (int, int) = choose|a: int, b: int|
                    0 <= a < arr@.len() && 0 <= b < arr@[a]@.len() && arr@[a]@[b] == x;
                assert(sd.contains(arr@[a]@[b]));
            }
            lemma_same_values_same_len(sd, di@);
            assert(str_views(chrs@) == chosen_gradient(sd.len() as int));
        }
    }
    r
}

} // verus!
