//! Helpers for adding titles to plot strings and for moving between
//! newline-separated strings and character tables.

use crate::helper::arrays::row_views;
use vstd::prelude::*;
use vstd::string::StrSliceExecFns;
use vstd::string::StringExecFns;

verus! {

/// The lines of a character sequence, split at every newline. There is
/// always at least one line; a trailing newline yields a final empty line.
pub open spec fn split_lines(s: Seq<char>) -> Seq<Seq<char>>
    decreases s.len(),
{
    if s.len() == 0 {
        seq![Seq::<char>::empty()]
    } else if s.last() == '\n' {
        split_lines(s.drop_last()).push(Seq::<char>::empty())
    } else {
        let rest = split_lines(s.drop_last());
        rest.drop_last().push(rest.last().push(s.last()))
    }
}

/// Lines joined back into one character sequence with a newline between
/// every two of them.
pub open spec fn joined_lines(rows: Seq<Seq<char>>) -> Seq<char>
    decreases rows.len(),
{
    if rows.len() == 0 {
        Seq::<char>::empty()
    } else if rows.len() == 1 {
        rows[0]
    } else {
        rows[0] + seq!['\n'] + joined_lines(rows.drop_first())
    }
}

/// Splitting never yields an empty list of lines.
pub proof fn lemma_split_lines_nonempty(s: Seq<char>)
    ensures
        split_lines(s).len() >= 1,
    decreases s.len(),
{
    if s.len() != 0 {
        lemma_split_lines_nonempty(s.drop_last());
    }
}

/// Joining one more line appends a newline and the line, unless it is the
/// first one.
pub proof fn lemma_joined_lines_push(rows: Seq<Seq<char>>, row: Seq<char>)
    ensures
        joined_lines(rows.push(row)) == if rows.len() == 0 {
            row
        } else {
            joined_lines(rows) + seq!['\n'] + row
        },
    decreases rows.len(),
{
    if rows.len() == 0 {
        assert(rows.push(row)[0] =~= row);
    } else {
        lemma_joined_lines_push(rows.drop_first(), row);
        assert(rows.push(row).drop_first() =~= rows.drop_first().push(row));
        if rows.len() == 1 {
            assert(joined_lines(rows.push(row)) =~= joined_lines(rows) + seq!['\n'] + row);
        } else {
            assert(joined_lines(rows.push(row)) =~= joined_lines(rows) + seq!['\n'] + row);
        }
    }
}

/// Splits a single newline-separated string into a table of characters, one
/// row per line.
pub fn string_to_char_table(s: &str) -> (r: Vec<Vec<char>>)
    ensures
        row_views(r@) == split_lines(s@),
{
    let n: usize = s.unicode_len();
    let mut rows: Vec<Vec<char>> = Vec::new();
    let mut cur: Vec<char> = Vec::new();
    let mut i: usize = 0;
    while i < n
        invariant
            n == s@.len(),
            i <= n,
            row_views(rows@).push(cur@) =~= split_lines(s@.take(i as int)),
        decreases n - i,
    {
        let c = s.get_char(i);
        let ghost rv0 = row_views(rows@);
        let ghost cur0 = cur@;
        proof {
            assert(s@.take(i + 1) =~= s@.take(i as int).push(s@[i as int]));
            assert(s@.take(i + 1).drop_last() =~= s@.take(i as int));
            lemma_split_lines_nonempty(s@.take(i as int));
            assert(rv0.push(cur0).drop_last() =~= rv0);
        }
        if c == '\n' {
            rows.push(cur);
            cur = Vec::new();
            proof {
                assert(row_views(rows@) =~= rv0.push(cur0));
                assert(row_views(rows@).push(cur@) =~= split_lines(s@.take(i + 1)));
            }
        } else {
            cur.push(c);
            proof {
                assert(row_views(rows@).push(cur@) =~= split_lines(s@.take(i + 1)));
            }
        }
        i = i + 1;
    }
    proof {
        assert(s@.take(n as int) =~= s@);
    }
    rows.push(cur);
    proof {
        assert(row_views(rows@) =~= split_lines(s@));
    }
    rows
}

/// Adds a title line above an input string.
pub fn add_title(s: &String, title: String) -> (r: String)
    ensures
        r@ == title@ + seq!['\n'] + s@,
{
    let ghost t0 = title@;
    let mut o = title;
    o.append("\n");
    o.append(s.as_str());
    proof {
        reveal_strlit("\n");
        assert("\n"@ =~= seq!['\n']);
        assert(o@ =~= t0 + seq!['\n'] + s@);
    }
    o
}

} // verus!
