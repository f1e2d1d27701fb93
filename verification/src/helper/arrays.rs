//! Helpers for working with, modifying, and manipulating tables and vectors.

use vstd::prelude::*;
use vstd::pervasive::cloned;

verus! {

/// The views of a table's rows, one character sequence per row.
pub open spec fn row_views<T>(t: Seq<Vec<T>>) -> Seq<Seq<T>> {
    t.map_values(|v: Vec<T>| v@)
}

/// A table (vector of rows) is rectangular: every row has the width of the
/// first one.
pub open spec fn is_rectangular<T>(tab: Seq<Vec<T>>) -> bool {
    forall|i: int| 0 <= i < tab.len() ==> #[trigger] tab[i]@.len() == tab[0]@.len()
}

/// Transposes a table (2D-array).
///
/// The output values reference the values of the input table.
///
/// The input must be rectangular and must have at least one row.
pub fn transpose_table<T>(arr: &Vec<Vec<T>>) -> (r: Vec<Vec<&T>>)
    requires
        arr@.len() > 0,
        is_rectangular(arr@),
    ensures
        r@.len() == arr@[0]@.len(),
        forall|j: int| 0 <= j < r@.len() ==> #[trigger] r@[j]@.len() == arr@.len(),
        forall|j: int, i: int|
            0 <= j < r@.len() && 0 <= i < arr@.len() ==> #[trigger] r@[j]@[i] == arr@[i]@[j],
{
    let width: usize = arr[0].len();
    let mut r: Vec<Vec<&T>> = Vec::new();
    let mut j: usize = 0;
    while j < width
        invariant
            arr@.len() > 0,
            is_rectangular(arr@),
            width == arr@[0]@.len(),
            j <= width,
            r@.len() == j,
            forall|c: int| 0 <= c < j ==> #[trigger] r@[c]@.len() == arr@.len(),
            forall|c: int, i: int|
                0 <= c < j && 0 <= i < arr@.len() ==> #[trigger] r@[c]@[i] == arr@[i]@[c],
        decreases width - j,
    {
        let mut col: Vec<&T> = Vec::new();
        let mut i: usize = 0;
        while i < arr.len()
            invariant
                arr@.len() > 0,
                is_rectangular(arr@),
                width == arr@[0]@.len(),
                j < width,
                i <= arr@.len(),
                col@.len() == i,
                forall|k: int| 0 <= k < i ==> #[trigger] col@[k] == arr@[k]@[j as int],
            decreases arr@.len() - i,
        {
            col.push(&arr[i][j]);
            i = i + 1;
        }
        r.push(col);
        j = j + 1;
    }
    r
}

/// Extends a vector with an element to a specified length, in place.
///
/// The desired length must not be below the current length.
pub fn pad_vec_to<T: Clone>(v: &mut Vec<T>, n: usize, el: T)
    requires
        n >= old(v)@.len(),
    ensures
        final(v)@.len() == n,
        forall|i: int| 0 <= i < old(v)@.len() ==> #[trigger] final(v)@[i] == old(v)@[i],
        forall|i: int| old(v)@.len() <= i < n ==> cloned(el, #[trigger] final(v)@[i]),
{
    while v.len() < n
        invariant
            old(v)@.len() <= v@.len() <= n,
            forall|i: int| 0 <= i < old(v)@.len() ==> #[trigger] v@[i] == old(v)@[i],
            forall|i: int| old(v)@.len() <= i < v@.len() ==> cloned(el, #[trigger] v@[i]),
        decreases n - v@.len(),
    {
        v.push(el.clone());
    }
}

/// Pads a vector with an element to a specified length, returning a new
/// vector.
///
/// The desired length must not be below the current length.
pub fn padded_vec_to<T: Clone>(v: Vec<T>, n: usize, el: T) -> (r: Vec<T>)
    requires
        n >= v@.len(),
    ensures
        r@.len() == n,
        forall|i: int| 0 <= i < v@.len() ==> #[trigger] r@[i] == v@[i],
        forall|i: int| v@.len() <= i < n ==> cloned(el, #[trigger] r@[i]),
{
    let mut u = v;
    pad_vec_to(&mut u, n, el);
    u
}

/// Pads a table with an element by the given amounts on each side:
/// `((left, right), (top, bottom))`. Negative amounts crop instead.
///
/// The input table must be rectangular; it may be empty only when the
/// vertical padding does not ask for new rows. The padded dimensions must
/// stay within `i32` bounds.
pub fn pad_table<T: Clone>(tab: &Vec<Vec<T>>, el: T, padding: ((i32, i32), (i32, i32))) -> (r: Vec<
    Vec<T>,
>)
    requires
        is_rectangular(tab@),
        tab@.len() > 0 || padding.1.0 + padding.1.1 <= 0,
        tab@.len() <= i32::MAX,
        tab@.len() > 0 ==> tab@[0]@.len() <= i32::MAX,
        padding.1.0 + tab@.len() <= i32::MAX,
        padding.1.1 + tab@.len() <= i32::MAX,
        i32::MIN <= padding.1.0 + tab@.len() + padding.1.1 <= i32::MAX,
        tab@.len() > 0 ==> padding.0.0 + tab@[0]@.len() <= i32::MAX,
        tab@.len() > 0 ==> padding.0.1 + tab@[0]@.len() <= i32::MAX,
        tab@.len() > 0 ==> i32::MIN <= padding.0.0 + tab@[0]@.len() + padding.0.1 <= i32::MAX,
    ensures
        r@.len() == if padding.1.0 + tab@.len() + padding.1.1 >= 0 {
            padding.1.0 + tab@.len() + padding.1.1
        } else {
            0
        },
        forall|i: int|
            0 <= i < r@.len() ==> #[trigger] r@[i]@.len() == if padding.0.0 + tab@[0]@.len()
                + padding.0.1 >= 0 {
                padding.0.0 + tab@[0]@.len() + padding.0.1
            } else {
                0
            },
        forall|i: int, j: int|
            0 <= i < r@.len() && 0 <= j < r@[i]@.len() ==> {
                if 0 <= i - padding.1.0 < tab@.len() && 0 <= j - padding.0.0 < tab@[0]@.len() {
                    cloned(tab@[i - padding.1.0]@[j - padding.0.0], #[trigger] r@[i]@[j])
                } else {
                    cloned(el, r@[i]@[j])
                }
            },
{
    let ((left, right), (top, bottom)) = padding;

    let height: i32 = tab.len() as i32;
    let rows: i32 = top + height + bottom;
    let mut r: Vec<Vec<T>> = Vec::new();
    if rows <= 0 {
        return r;
    }
    let width: i32 = tab[0].len() as i32;
    let cols: i32 = left + width + right;

    let mut i: i32 = 0;
    while i < rows
        invariant
            is_rectangular(tab@),
            tab@.len() > 0,
            height == tab@.len(),
            width == tab@[0]@.len(),
            rows == top + height + bottom,
            cols == left + width + right,
            bottom + height <= i32::MAX,
            right + width <= i32::MAX,
            0 <= i <= rows,
            r@.len() == i,
            forall|a: int|
                0 <= a < i ==> #[trigger] r@[a]@.len() == if cols >= 0 {
                    cols as int
                } else {
                    0
                },
            forall|a: int, b: int|
                0 <= a < i && 0 <= b < r@[a]@.len() ==> {
                    if 0 <= a - top < tab@.len() && 0 <= b - left < tab@[0]@.len() {
                        cloned(tab@[a - top]@[b - left], #[trigger] r@[a]@[b])
                    } else {
                        cloned(el, r@[a]@[b])
                    }
                },
        decreases rows - i,
    {
        let mut row: Vec<T> = Vec::new();
        let mut j: i32 = 0;
        while j < cols
            invariant
                is_rectangular(tab@),
                tab@.len() > 0,
                height == tab@.len(),
                width == tab@[0]@.len(),
                cols == left + width + right,
                rows == top + height + bottom,
                bottom + height <= i32::MAX,
                right + width <= i32::MAX,
                0 <= i < rows,
                0 <= j,
                cols >= 0 ==> j <= cols,
                cols < 0 ==> j == 0,
                row@.len() == j,
                forall|b: int|
                    0 <= b < j ==> {
                        if 0 <= i - top < tab@.len() && 0 <= b - left < tab@[0]@.len() {
                            cloned(tab@[i - top]@[b - left], #[trigger] row@[b])
                        } else {
                            cloned(el, row@[b])
                        }
                    },
            decreases cols - j,
        {
            if i - top >= 0 && j - left >= 0 && i - top < height && j - left < width {
                row.push(tab[(i - top) as usize][(j - left) as usize].clone());
            } else {
                row.push(el.clone());
            }
            j = j + 1;
        }
        r.push(row);
        i = i + 1;
    }
    r
}

} // verus!
