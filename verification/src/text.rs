//! Positions in text: char indices, UTF-8 byte offsets, lines and ranges.

use vstd::prelude::*;
use vstd::utf8::{char_is_scalar, encode_scalar, encode_utf8};

verus! {

/// Whether the half-open ranges `[a, b)` and `[c, d)` share a position.
pub open spec fn spec_ranges_overlap(a: int, b: int, c: int, d: int) -> bool {
    a < d && c < b
}

/// Tells whether the half-open ranges `a..b` and `c..d` overlap.
pub fn ranges_overlap(a: usize, b: usize, c: usize, d: usize) -> (r: bool)
    ensures
        r == spec_ranges_overlap(a as int, b as int, c as int, d as int),
{
    a < d && c < b
}

/// Overlap does not depend on which range is named first.
pub proof fn lemma_ranges_overlap_symmetric(a: int, b: int, c: int, d: int)
    ensures
        spec_ranges_overlap(a, b, c, d) == spec_ranges_overlap(c, d, a, b),
{
}

/// Number of bytes that UTF-8 takes for `c`.
pub open spec fn char_width(c: char) -> nat {
    if (c as u32) < 0x80 {
        1
    } else if (c as u32) < 0x800 {
        2
    } else if (c as u32) < 0x10000 {
        3
    } else {
        4
    }
}

/// Number of bytes that UTF-8 takes for the chars `s`.
pub open spec fn utf8_len(s: Seq<char>) -> nat
    decreases s.len(),
{
    if s.len() == 0 {
        0
    } else {
        utf8_len(s.drop_last()) + char_width(s.last())
    }
}

/// Byte offset, in the UTF-8 encoding of `s`, of the char at char index
/// `index`; the byte length of `s` where `s` has no such char.
pub open spec fn spec_byte_at_char(s: Seq<char>, index: int) -> nat {
    if 0 <= index < s.len() {
        utf8_len(s.take(index))
    } else {
        utf8_len(s)
    }
}

/// A longer prefix never has a shorter encoding.
pub proof fn lemma_utf8_len_prefix(s: Seq<char>, i: int, j: int)
    requires
        0 <= i <= j <= s.len(),
    ensures
        utf8_len(s.take(i)) <= utf8_len(s.take(j)),
    decreases j - i,
{
    if i < j {
        lemma_utf8_len_prefix(s, i, j - 1);
        assert(s.take(j).drop_last() =~= s.take(j - 1));
    }
}

/// A longer prefix has a longer encoding.
pub proof fn lemma_utf8_len_prefix_strict(s: Seq<char>, i: int, j: int)
    requires
        0 <= i < j <= s.len(),
    ensures
        utf8_len(s.take(i)) < utf8_len(s.take(j)),
{
    lemma_utf8_len_prefix(s, i, j - 1);
    assert(s.take(j).drop_last() =~= s.take(j - 1));
}

/// The encoding of two texts put together is as long as theirs added.
pub proof fn lemma_utf8_len_concat(a: Seq<char>, b: Seq<char>)
    ensures
        utf8_len(a + b) == utf8_len(a) + utf8_len(b),
    decreases b.len(),
{
    if b.len() == 0 {
        assert(a + b =~= a);
    } else {
        lemma_utf8_len_concat(a, b.drop_last());
        assert((a + b).drop_last() =~= a + b.drop_last());
    }
}

/// `utf8_len` is the length of the UTF-8 encoding that `str` has.
pub proof fn lemma_utf8_len_is_encoding_len(s: Seq<char>)
    ensures
        utf8_len(s) == encode_utf8(s).len(),
    decreases s.len(),
{
    if s.len() > 0 {
        let c = s[0];
        lemma_utf8_len_is_encoding_len(s.drop_first());
        lemma_utf8_len_concat(seq![c], s.drop_first());
        assert(seq![c] + s.drop_first() =~= s);
        assert(seq![c].drop_last() =~= Seq::<char>::empty());
        char_is_scalar(c);
        assert(encode_scalar(c as u32).len() == char_width(c));
        assert(utf8_len(seq![c]) == utf8_len(Seq::<char>::empty()) + char_width(c));
        assert(encode_utf8(s) == encode_scalar(s[0] as u32) + encode_utf8(s.drop_first()));
    } else {
        assert(encode_utf8(s) == Seq::<u8>::empty());
    }
}

/// The byte length of `s`, which fits in `usize`.
pub fn byte_len(s: &str) -> (n: usize)
    ensures
        n == utf8_len(s@),
{
    let bytes = s.as_bytes();
    proof {
        lemma_utf8_len_is_encoding_len(s@);
    }
    bytes.len()
}

/// The chars of `s`, in order.
pub fn chars_of(s: &str) -> (v: Vec<char>)
    ensures
        v@ == s@,
{
    let mut v: Vec<char> = Vec::new();
    for c in it: s.chars()
        invariant
            v@ == it.seq().take(it.index() as int),
            it.seq() == s@,
    {
        v.push(c);
    }
    v
}

/// Width in bytes of `c` in UTF-8.
pub fn utf8_width(c: char) -> (w: usize)
    ensures
        w == char_width(c),
{
    let u = c as u32;
    if u < 0x80 {
        1
    } else if u < 0x800 {
        2
    } else if u < 0x10000 {
        3
    } else {
        4
    }
}


/// Byte offset of the char at char index `index` in `s`, or the byte
/// length of `s` where `index` is past its last char.
pub fn byte_at_char(s: &str, index: usize) -> (b: usize)
    ensures
        b == spec_byte_at_char(s@, index as int),
{
    let _ = byte_len(s);
    let chars = chars_of(s);
    let n = chars.len();
    let mut i: usize = 0;
    let mut b: usize = 0;
    while i < n && i < index
        invariant
            chars@ == s@,
            n == s@.len(),
            i <= n,
            i <= index,
            b == utf8_len(s@.take(i as int)),
            utf8_len(s@) <= usize::MAX,
        decreases n - i,
    {
        proof {
            lemma_utf8_len_prefix(s@, i + 1, n as int);
            assert(s@.take(i + 1).drop_last() =~= s@.take(i as int));
            assert(s@.take(n as int) =~= s@);
        }
        b = b + utf8_width(chars[i]);
        i = i + 1;
    }
    proof {
        assert(s@.take(n as int) =~= s@);
    }
    b
}

/// Byte offset of the char at char index `index` in `s`, or the byte
/// length of `s` where `index` is past its last char.
pub fn char_to_byte(s: &str, index: usize) -> (b: usize)
    ensures
        b == spec_byte_at_char(s@, index as int),
{
    byte_at_char(s, index)
}


/// Number of line feeds in `s`.
pub open spec fn count_newlines(s: Seq<char>) -> nat
    decreases s.len(),
{
    if s.len() == 0 {
        0
    } else {
        count_newlines(s.drop_last()) + if s.last() == '\n' {
            1nat
        } else {
            0nat
        }
    }
}

/// Number of lines of `s` as `str::lines` yields them: one per line feed,
/// and one more for text after the last line feed.
pub open spec fn line_count(s: Seq<char>) -> nat {
    count_newlines(s) + if s.len() > 0 && s.last() != '\n' {
        1nat
    } else {
        0nat
    }
}

/// Number of chars after the last line feed of `s`.
pub open spec fn column_of(s: Seq<char>) -> nat
    decreases s.len(),
{
    if s.len() == 0 {
        0
    } else if s.last() == '\n' {
        0
    } else {
        column_of(s.drop_last()) + 1
    }
}

pub proof fn lemma_count_newlines_bound(s: Seq<char>)
    ensures
        count_newlines(s) + column_of(s) <= s.len(),
    decreases s.len(),
{
    if s.len() > 0 {
        lemma_count_newlines_bound(s.drop_last());
    }
}

/// The chars of `s` before char index `index`; all of `s` where `index`
/// is past its end.
pub open spec fn prefix_to(s: Seq<char>, index: int) -> Seq<char> {
    if index < s.len() {
        s.take(index)
    } else {
        s
    }
}

/// Number of lines that `text` has, as `str::lines` counts them.
pub fn lines_in(text: &str) -> (n: usize)
    ensures
        n == line_count(text@),
{
    let s = chars_of(text);
    let len = s.len();
    let mut i: usize = 0;
    let mut c: usize = 0;
    proof {
        assert(s@.take(0) =~= Seq::<char>::empty());
    }
    while i < len
        invariant
            s@ == text@,
            len == s@.len(),
            i <= len,
            c == count_newlines(s@.take(i as int)),
            c <= i,
        decreases len - i,
    {
        proof {
            assert(s@.take(i + 1).drop_last() =~= s@.take(i as int));
        }
        if s[i] == '\n' {
            c = c + 1;
        }
        i = i + 1;
    }
    proof {
        assert(s@.take(len as int) =~= s@);
    }
    if len > 0 && s[len - 1] != '\n' {
        proof {
            lemma_count_newlines_bound(s@.drop_last());
        }
        c + 1
    } else {
        c
    }
}

/// The 1-based line and column of the cursor at char index `index` of
/// `text` (an index past the end stands for the end).
pub fn line_and_column(text: &str, index: usize) -> (r: (usize, usize))
    requires
        text@.len() < usize::MAX,
    ensures
        r.0 == count_newlines(prefix_to(text@, index as int)) + 1,
        r.1 == column_of(prefix_to(text@, index as int)) + 1,
{
    let s = chars_of(text);
    let len = s.len();
    let mut i: usize = 0;
    let mut line: usize = 0;
    let mut column: usize = 0;
    proof {
        assert(s@.take(0) =~= Seq::<char>::empty());
    }
    while i < len && i < index
        invariant
            s@ == text@,
            len == s@.len(),
            len < usize::MAX,
            i <= len,
            i <= index,
            line == count_newlines(s@.take(i as int)),
            column == column_of(s@.take(i as int)),
            line + column <= i,
        decreases len - i,
    {
        proof {
            assert(s@.take(i + 1).drop_last() =~= s@.take(i as int));
        }
        if s[i] == '\n' {
            line = line + 1;
            column = 0;
        } else {
            column = column + 1;
        }
        i = i + 1;
    }
    proof {
        assert(s@.take(len as int) =~= s@);
    }
    (line + 1, column + 1)
}

/// Calls `String::push`, which appends `c` to `s`.
#[verifier::external_body]
pub(crate) fn push_char(s: &mut String, c: char)
    ensures
        final(s)@ == old(s)@.push(c),
{
    s.push(c);
}

/// The string whose chars are `v`.
pub fn string_from_chars(v: &Vec<char>) -> (s: String)
    ensures
        s@ == v@,
{
    let mut s = String::new();
    let mut k: usize = 0;
    while k < v.len()
        invariant
            k <= v@.len(),
            s@ == v@.take(k as int),
        decreases v@.len() - k,
    {
        push_char(&mut s, v[k]);
        k = k + 1;
        proof {
            assert(s@ =~= v@.take(k as int));
        }
    }
    proof {
        assert(v@.take(v@.len() as int) =~= v@);
    }
    s
}

} // verus!
