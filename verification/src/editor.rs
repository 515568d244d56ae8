//! What the text editor reports, and its line-number gutter.

use vstd::prelude::*;

use crate::format::{decimal, padded_decimal, push_decimal};
use crate::text::{
    chars_of, column_of, count_newlines, line_and_column, line_count, lines_in, prefix_to, push_char,
};

verus! {

/// What one frame of the editor reports: whether the text changed, and the
/// 1-based line and column of the cursor.
#[derive(Clone, Copy, Debug, PartialEq, Eq)]
pub struct EditorResult {
    pub changed: bool,
    pub cursor_line: usize,
    pub cursor_column: usize,
}

impl EditorResult {
    /// The report for `text` with the cursor at char index `cursor`, if the
    /// editor has one; without a cursor, line 1 and column 1.
    pub fn at_cursor(text: &str, cursor: Option<usize>, changed: bool) -> (r: Self)
        requires
            text@.len() < usize::MAX,
        ensures
            r.changed == changed,
            cursor is None ==> r.cursor_line == 1 && r.cursor_column == 1,
            cursor matches Some(i) ==> r.cursor_line == count_newlines(prefix_to(text@, i as int)) + 1
                && r.cursor_column == column_of(prefix_to(text@, i as int)) + 1,
    {
        match cursor {
            Some(i) => {
                let (line, column) = line_and_column(text, i);
                EditorResult { changed, cursor_line: line, cursor_column: column }
            },
            None => EditorResult { changed, cursor_line: 1, cursor_column: 1 },
        }
    }
}

/// The gutter for `k` lines: the numbers 1 to `k`, each right-aligned to
/// four chars and followed by a line feed.
pub open spec fn gutter_lines(k: nat) -> Seq<char>
    decreases k,
{
    if k == 0 {
        seq![]
    } else {
        gutter_lines((k - 1) as nat) + padded_decimal(k, 4) + seq!['\n']
    }
}

/// Number of lines that the gutter numbers for `text`: its lines, and at
/// least one.
pub open spec fn gutter_count(text: Seq<char>) -> nat {
    if line_count(text) == 0 {
        1
    } else {
        line_count(text)
    }
}

/// Appends `n` in decimal, right-aligned to `width` chars, to `s`.
fn push_padded(s: &mut String, n: usize, width: usize)
    ensures
        final(s)@ == old(s)@ + padded_decimal(n as nat, width as nat),
{
    let mut d = String::new();
    push_decimal(&mut d, n);
    assert(d@ =~= decimal(n as nat));
    let digits = chars_of(d.as_str()).len();
    if digits < width {
        let mut k: usize = 0;
        let ghost before = s@;
        while k < width - digits
            invariant
                digits < width,
                k <= width - digits,
                s@ == before + Seq::new(k as nat, |i: int| ' '),
            decreases width - digits - k,
        {
            push_char(s, ' ');
            k = k + 1;
            proof {
                assert(s@ =~= before + Seq::new(k as nat, |i: int| ' '));
            }
        }
    }
    s.append(d.as_str());
    assert(s@ =~= old(s)@ + padded_decimal(n as nat, width as nat));
}

/// The line numbers shown beside `text`.
pub fn gutter(text: &str) -> (g: String)
    ensures
        g@ == gutter_lines(gutter_count(text@)),
{
    let lines = lines_in(text);
    let count = if lines == 0 {
        1
    } else {
        lines
    };
    let mut g = String::new();
    let mut n: usize = 0;
    while n < count
        invariant
            count == gutter_count(text@),
            n <= count,
            g@ == gutter_lines(n as nat),
        decreases count - n,
    {
        n = n + 1;
        push_padded(&mut g, n, 4);
        push_char(&mut g, '\n');
        assert(g@ =~= gutter_lines(n as nat));
    }
    g
}

} // verus!
