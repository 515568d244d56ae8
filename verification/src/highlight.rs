//! Syntax and error highlighting of contract text.
//!
//! The text is cut into tokens, left to right: a line comment (`//` up to
//! the next newline), a block comment (`/*` up to and including the first
//! `*/`), a string literal (a `"` up to the next `"` that no backslash
//! escapes), a word (a letter or `_`, then letters, digits and `_`), or a
//! single other char. Each token gets a kind and is underlined where a
//! diagnostic's byte range overlaps it.

use vstd::prelude::*;

use crate::diagnostics::DiagnosticView;
use crate::text::{
    byte_len, chars_of, lemma_utf8_len_prefix, lemma_utf8_len_prefix_strict, ranges_overlap,
    spec_ranges_overlap, utf8_len, utf8_width,
};
use crate::unicode::{alphabetic, numeric, is_alphabetic, is_alphanumeric};

verus! {

/// The words that the contract language reserves.
pub open spec fn keywords() -> Seq<Seq<char>> {
    seq![
        "contract"@, "description"@, "case"@, "given"@, "call"@, "expect"@, "returns"@,
        "throws"@, "nothing"@, "oneof"@, "message"@, "contains"@, "if"@, "nothrow"@,
    ]
}

/// How a token is shown.
#[derive(Clone, Copy, Debug, PartialEq, Eq)]
pub enum TokenKind {
    /// A line or block comment.
    Comment,
    /// A string literal.
    StringLiteral,
    /// A reserved word.
    Keyword,
    /// Any other word or char.
    Plain,
}

/// A token of the text: its byte range, its kind, and whether a
/// diagnostic covers part of it.
#[derive(Clone, Copy, Debug, PartialEq, Eq)]
pub struct Span {
    pub start: usize,
    pub end: usize,
    pub kind: TokenKind,
    pub underlined: bool,
}

/// End of the line that holds index `i`: the index of the next `'\n'` at
/// or after `i`, or the length of `s`.
pub open spec fn line_end(s: Seq<char>, i: int) -> int
    decreases s.len() - i,
{
    if i >= s.len() {
        s.len() as int
    } else if s[i] == '\n' {
        i
    } else {
        line_end(s, i + 1)
    }
}

/// End of a block comment: just past the first `*/` whose `*` is at or
/// after `i`, or the length of `s`.
pub open spec fn block_end(s: Seq<char>, i: int) -> int
    decreases s.len() - i,
{
    if i + 1 >= s.len() {
        s.len() as int
    } else if s[i] == '*' && s[i + 1] == '/' {
        i + 2
    } else {
        block_end(s, i + 1)
    }
}

/// End of a string literal whose body starts at `i`: just past the first
/// unescaped `"`, or the length of `s`. `escaped` tells whether the char
/// before `i` is an escaping backslash.
pub open spec fn string_end(s: Seq<char>, i: int, escaped: bool) -> int
    decreases s.len() - i,
{
    if i >= s.len() {
        s.len() as int
    } else if s[i] == '"' && !escaped {
        i + 1
    } else {
        string_end(s, i + 1, s[i] == '\\' && !escaped)
    }
}

/// Chars that a word is made of.
pub open spec fn is_word_char(c: char) -> bool {
    alphabetic(c) || numeric(c) || c == '_'
}

/// End of the word that starts at or before `i`: the first index at or
/// after `i` whose char is no word char, or the length of `s`.
pub open spec fn word_end(s: Seq<char>, i: int) -> int
    decreases s.len() - i,
{
    if i >= s.len() {
        s.len() as int
    } else if !is_word_char(s[i]) {
        i
    } else {
        word_end(s, i + 1)
    }
}

pub open spec fn starts_pair(s: Seq<char>, i: int, a: char, b: char) -> bool {
    i + 1 < s.len() && s[i] == a && s[i + 1] == b
}

/// Whether a word starts with `c`.
pub open spec fn starts_word(c: char) -> bool {
    alphabetic(c) || c == '_'
}

/// End of the token that starts at index `i` of `s`.
pub open spec fn token_end(s: Seq<char>, i: int) -> int {
    if starts_pair(s, i, '/', '/') {
        line_end(s, i)
    } else if starts_pair(s, i, '/', '*') {
        block_end(s, i)
    } else if s[i] == '"' {
        string_end(s, i + 1, false)
    } else if starts_word(s[i]) {
        word_end(s, i)
    } else {
        i + 1
    }
}

/// Kind of the token that starts at index `i` of `s`.
pub open spec fn token_kind(s: Seq<char>, i: int) -> TokenKind {
    if starts_pair(s, i, '/', '/') || starts_pair(s, i, '/', '*') {
        TokenKind::Comment
    } else if s[i] == '"' {
        TokenKind::StringLiteral
    } else if starts_word(s[i]) && keywords().contains(s.subrange(i, word_end(s, i))) {
        TokenKind::Keyword
    } else {
        TokenKind::Plain
    }
}

pub proof fn lemma_line_end_bounds(s: Seq<char>, i: int)
    requires
        0 <= i <= s.len(),
    ensures
        i <= line_end(s, i) <= s.len(),
    decreases s.len() - i,
{
    if i < s.len() && s[i] != '\n' {
        lemma_line_end_bounds(s, i + 1);
    }
}

pub proof fn lemma_block_end_bounds(s: Seq<char>, i: int)
    requires
        0 <= i <= s.len(),
    ensures
        i <= block_end(s, i) <= s.len(),
        i + 1 < s.len() ==> i + 2 <= block_end(s, i),
    decreases s.len() - i,
{
    if i + 1 < s.len() && !(s[i] == '*' && s[i + 1] == '/') {
        lemma_block_end_bounds(s, i + 1);
    }
}

pub proof fn lemma_string_end_bounds(s: Seq<char>, i: int, escaped: bool)
    requires
        0 <= i <= s.len(),
    ensures
        i <= string_end(s, i, escaped) <= s.len(),
    decreases s.len() - i,
{
    if i < s.len() && !(s[i] == '"' && !escaped) {
        lemma_string_end_bounds(s, i + 1, s[i] == '\\' && !escaped);
    }
}

pub proof fn lemma_word_end_bounds(s: Seq<char>, i: int)
    requires
        0 <= i <= s.len(),
    ensures
        i <= word_end(s, i) <= s.len(),
    decreases s.len() - i,
{
    if i < s.len() && is_word_char(s[i]) {
        lemma_word_end_bounds(s, i + 1);
    }
}

/// Every token holds at least one char and ends within the text.
pub proof fn lemma_token_end_bounds(s: Seq<char>, i: int)
    requires
        0 <= i < s.len(),
    ensures
        i < token_end(s, i) <= s.len(),
{
    if starts_pair(s, i, '/', '/') {
        lemma_line_end_bounds(s, i + 1);
        assert(line_end(s, i) == line_end(s, i + 1));
    } else if starts_pair(s, i, '/', '*') {
        lemma_block_end_bounds(s, i);
    } else if s[i] == '"' {
        lemma_string_end_bounds(s, i + 1, false);
    } else if starts_word(s[i]) {
        lemma_word_end_bounds(s, i + 1);
    }
}

/// The tokens of `s` from char index `i` on, as (start, end, kind) in char
/// indices.
pub open spec fn tokens_from(s: Seq<char>, i: int) -> Seq<(int, int, TokenKind)>
    decreases s.len() - i,
{
    if i < 0 || i >= s.len() {
        seq![]
    } else {
        proof {
            lemma_token_end_bounds(s, i);
        }
        seq![(i, token_end(s, i), token_kind(s, i))] + tokens_from(s, token_end(s, i))
    }
}

/// The byte range of diagnostic `d` as it is drawn over a source of
/// `source_len` bytes: clamped to the source, and one byte wide at least.
pub open spec fn drawn_start(d: DiagnosticView, source_len: int) -> int {
    if d.start < source_len {
        d.start as int
    } else {
        source_len
    }
}

pub open spec fn drawn_end(d: DiagnosticView, source_len: int) -> int {
    let e = if d.end > d.start {
        d.end as int
    } else {
        d.start + 1
    };
    if e < source_len {
        e
    } else {
        source_len
    }
}

/// Whether some diagnostic overlaps the byte range `[b0, b1)`.
pub open spec fn underlined(
    b0: int,
    b1: int,
    source_len: int,
    diagnostics: Seq<DiagnosticView>,
) -> bool {
    exists|k: int|
        0 <= k < diagnostics.len() && #[trigger] spec_ranges_overlap(
            b0,
            b1,
            drawn_start(diagnostics[k], source_len),
            drawn_end(diagnostics[k], source_len),
        )
}

/// The span drawn for token `t` of `s`.
pub open spec fn span_of(
    s: Seq<char>,
    t: (int, int, TokenKind),
    source_len: int,
    diagnostics: Seq<DiagnosticView>,
) -> Span {
    let b0 = utf8_len(s.take(t.0));
    let b1 = utf8_len(s.take(t.1));
    Span {
        start: b0 as usize,
        end: b1 as usize,
        kind: t.2,
        underlined: underlined(b0 as int, b1 as int, source_len, diagnostics),
    }
}


/// The tokens from char index `i` on follow each other without gap or
/// overlap, each holds at least one char, and together they reach from `i`
/// to the end of `s`.
pub proof fn lemma_tokens_from_partition(s: Seq<char>, i: int)
    requires
        0 <= i <= s.len(),
    ensures
        (tokens_from(s, i).len() == 0) == (i == s.len()),
        tokens_from(s, i).len() > 0 ==> tokens_from(s, i)[0].0 == i,
        tokens_from(s, i).len() > 0 ==> tokens_from(s, i).last().1 == s.len(),
        forall|k: int|
            0 <= k < tokens_from(s, i).len() ==> i <= (#[trigger] tokens_from(s, i)[k]).0 < tokens_from(
                s,
                i,
            )[k].1 <= s.len(),
        forall|k: int|
            0 <= k < tokens_from(s, i).len() - 1 ==> (#[trigger] tokens_from(s, i)[k]).1 == tokens_from(
                s,
                i,
            )[k + 1].0,
    decreases s.len() - i,
{
    if i < s.len() {
        lemma_token_end_bounds(s, i);
        let e = token_end(s, i);
        lemma_tokens_from_partition(s, e);
        let rest = tokens_from(s, e);
        let ts = tokens_from(s, i);
        assert(ts == seq![(i, e, token_kind(s, i))] + rest);
        assert forall|k: int| 0 <= k < ts.len() implies i <= (#[trigger] ts[k]).0 < ts[k].1 <= s.len() by {
            if k > 0 {
                assert(ts[k] == rest[k - 1]);
            }
        }
        assert forall|k: int| 0 <= k < ts.len() - 1 implies (#[trigger] ts[k]).1 == ts[k + 1].0 by {
            if k > 0 {
                assert(ts[k] == rest[k - 1]);
                assert(ts[k + 1] == rest[k]);
            }
        }
    }
}

/// The spans of the highlighter cover the text's bytes exactly: the first
/// starts at byte 0, each starts where the one before it ends, none is
/// empty, and the last ends at the text's byte length. A text without
/// chars has no span.
pub proof fn lemma_spans_cover_text(s: Seq<char>, source_len: int, diagnostics: Seq<DiagnosticView>)
    requires
        utf8_len(s) <= usize::MAX,
    ensures
        ({
            let spans = tokens_from(s, 0).map_values(
                |t: (int, int, TokenKind)| span_of(s, t, source_len, diagnostics),
            );
            &&& (spans.len() == 0) == (s.len() == 0)
            &&& spans.len() > 0 ==> spans[0].start == 0
            &&& spans.len() > 0 ==> spans.last().end == utf8_len(s)
            &&& forall|k: int| 0 <= k < spans.len() ==> (#[trigger] spans[k]).start < spans[k].end
            &&& forall|k: int|
                0 <= k < spans.len() - 1 ==> (#[trigger] spans[k]).end == spans[k + 1].start
        }),
{
    let ts = tokens_from(s, 0);
    let f = |t: (int, int, TokenKind)| span_of(s, t, source_len, diagnostics);
    let spans = ts.map_values(f);
    lemma_tokens_from_partition(s, 0);
    assert(s.take(s.len() as int) =~= s);
    assert(s.take(0) =~= Seq::<char>::empty());
    assert forall|k: int| 0 <= k < spans.len() implies {
        &&& (#[trigger] spans[k]).start == utf8_len(s.take(ts[k].0))
        &&& spans[k].end == utf8_len(s.take(ts[k].1))
    } by {
        let t = ts[k];
        lemma_utf8_len_prefix(s, t.0, s.len() as int);
        lemma_utf8_len_prefix(s, t.1, s.len() as int);
        assert(spans[k] == f(t));
    }
    assert forall|k: int| 0 <= k < spans.len() implies (#[trigger] spans[k]).start < spans[k].end by {
        lemma_utf8_len_prefix_strict(s, ts[k].0, ts[k].1);
    }
    assert forall|k: int| 0 <= k < spans.len() - 1 implies (#[trigger] spans[k]).end
        == spans[k + 1].start by {
        assert(ts[k].1 == ts[k + 1].0);
        assert(spans[k + 1].start == utf8_len(s.take(ts[k + 1].0)));
    }
    if spans.len() > 0 {
        assert(spans[0].start == utf8_len(s.take(ts[0].0)));
        assert(spans.last() == spans[spans.len() - 1]);
        assert(spans.last().end == utf8_len(s.take(ts[ts.len() - 1].1)));
    }
}

/// Number of backslashes that directly precede index `j` of `s`, counting
/// back no further than index `lo`.
pub open spec fn backslashes_before(s: Seq<char>, lo: int, j: int) -> nat
    decreases j - lo,
{
    if j <= lo || s[j - 1] != '\\' {
        0
    } else {
        1 + backslashes_before(s, lo, j - 1)
    }
}

/// Whether a `"` at index `j` of a string literal whose body starts at
/// `lo` closes it: the run of backslashes before it is of even length, so
/// none of them escapes it.
pub open spec fn closes_string(s: Seq<char>, lo: int, j: int) -> bool {
    s[j] == '"' && backslashes_before(s, lo, j) % 2 == 0
}

proof fn lemma_line_end_scan(s: Seq<char>, k: int)
    requires
        0 <= k <= s.len(),
    ensures
        k <= line_end(s, k) <= s.len(),
        forall|j: int| k <= j < line_end(s, k) ==> #[trigger] s[j] != '\n',
        line_end(s, k) < s.len() ==> s[line_end(s, k)] == '\n',
    decreases s.len() - k,
{
    if k < s.len() && s[k] != '\n' {
        lemma_line_end_scan(s, k + 1);
    }
}

proof fn lemma_block_end_scan(s: Seq<char>, k: int)
    requires
        0 <= k <= s.len(),
    ensures
        k <= block_end(s, k) <= s.len(),
        forall|j: int| k <= j < block_end(s, k) - 2 ==> !(#[trigger] s[j] == '*' && s[j + 1] == '/'),
        block_end(s, k) < s.len() ==> k + 2 <= block_end(s, k) && s[block_end(s, k) - 2] == '*'
            && s[block_end(s, k) - 1] == '/',
    decreases s.len() - k,
{
    if k + 1 < s.len() && !(s[k] == '*' && s[k + 1] == '/') {
        lemma_block_end_scan(s, k + 1);
    }
}

proof fn lemma_string_end_scan(s: Seq<char>, lo: int, k: int, escaped: bool)
    requires
        0 <= lo <= k <= s.len(),
        escaped == (backslashes_before(s, lo, k) % 2 == 1),
    ensures
        k <= string_end(s, k, escaped) <= s.len(),
        forall|j: int| k <= j < string_end(s, k, escaped) - 1 ==> !#[trigger] closes_string(s, lo, j),
        string_end(s, k, escaped) < s.len() ==> k < string_end(s, k, escaped) && closes_string(
            s,
            lo,
            string_end(s, k, escaped) - 1,
        ),
    decreases s.len() - k,
{
    if k < s.len() {
        if s[k] == '"' && !escaped {
        } else {
            let next = s[k] == '\\' && !escaped;
            assert(backslashes_before(s, lo, k + 1) == if s[k] == '\\' {
                1 + backslashes_before(s, lo, k)
            } else {
                0
            });
            lemma_string_end_scan(s, lo, k + 1, next);
        }
    }
}

/// A line comment runs from its `//` up to the next line feed, which it
/// leaves out, or to the end of the text.
pub proof fn lemma_line_comment_token(s: Seq<char>, i: int)
    requires
        0 <= i,
        i + 1 < s.len(),
        s[i] == '/',
        s[i + 1] == '/',
    ensures
        token_kind(s, i) == TokenKind::Comment,
        i + 2 <= token_end(s, i) <= s.len(),
        forall|j: int| i <= j < token_end(s, i) ==> #[trigger] s[j] != '\n',
        token_end(s, i) < s.len() ==> s[token_end(s, i)] == '\n',
{
    lemma_line_end_scan(s, i);
    lemma_line_end_scan(s, i + 2);
    assert(line_end(s, i) == line_end(s, i + 2));
}

/// A block comment runs from its `/*` through the first `*/` that starts
/// at or after the `/` (so `/*/` is a whole comment); without such a `*/`
/// it runs to the end of the text.
pub proof fn lemma_block_comment_token(s: Seq<char>, i: int)
    requires
        0 <= i,
        i + 1 < s.len(),
        s[i] == '/',
        s[i + 1] == '*',
    ensures
        token_kind(s, i) == TokenKind::Comment,
        i + 2 <= token_end(s, i) <= s.len(),
        forall|j: int| i <= j < token_end(s, i) - 2 ==> !(#[trigger] s[j] == '*' && s[j + 1] == '/'),
        token_end(s, i) < s.len() ==> s[token_end(s, i) - 2] == '*' && s[token_end(s, i) - 1] == '/',
{
    lemma_block_end_scan(s, i);
    lemma_block_end_bounds(s, i);
}

/// A string literal runs from its opening `"` through the first `"` that
/// an even run of backslashes precedes (a backslash escapes just the one
/// char after it); without such a `"` it runs to the end of the text.
pub proof fn lemma_string_token(s: Seq<char>, i: int)
    requires
        0 <= i < s.len(),
        s[i] == '"',
    ensures
        token_kind(s, i) == TokenKind::StringLiteral,
        i < token_end(s, i) <= s.len(),
        forall|j: int| i < j < token_end(s, i) - 1 ==> !#[trigger] closes_string(s, i + 1, j),
        token_end(s, i) < s.len() ==> i + 1 < token_end(s, i) && closes_string(
            s,
            i + 1,
            token_end(s, i) - 1,
        ),
{
    assert(backslashes_before(s, i + 1, i + 1) == 0);
    lemma_string_end_scan(s, i + 1, i + 1, false);
}

/// A token is underlined exactly when some diagnostic, whichever its place
/// in the list, overlaps the token's bytes, with the diagnostic's span
/// clamped to the source and made at least one byte wide.
pub proof fn lemma_underlined_iff_some_diagnostic(
    s: Seq<char>,
    t: (int, int, TokenKind),
    source_len: int,
    diagnostics: Seq<DiagnosticView>,
)
    ensures
        span_of(s, t, source_len, diagnostics).underlined <==> exists|k: int|
            0 <= k < diagnostics.len() && {
                let d = #[trigger] diagnostics[k];
                let lo = if d.start < source_len {
                    d.start as int
                } else {
                    source_len
                };
                let wide = if d.end > d.start {
                    d.end as int
                } else {
                    d.start + 1
                };
                let hi = if wide < source_len {
                    wide
                } else {
                    source_len
                };
                utf8_len(s.take(t.0)) < hi && lo < utf8_len(s.take(t.1))
            },
{
    let b0 = utf8_len(s.take(t.0)) as int;
    let b1 = utf8_len(s.take(t.1)) as int;
    if span_of(s, t, source_len, diagnostics).underlined {
        let k = choose|k: int|
            0 <= k < diagnostics.len() && #[trigger] spec_ranges_overlap(
                b0,
                b1,
                drawn_start(diagnostics[k], source_len),
                drawn_end(diagnostics[k], source_len),
            );
        assert(diagnostics[k] == diagnostics[k]);
    }
    assert forall|k: int|
        0 <= k < diagnostics.len() && b0 < drawn_end(#[trigger] diagnostics[k], source_len) && drawn_start(
            diagnostics[k],
            source_len,
        ) < b1 implies span_of(s, t, source_len, diagnostics).underlined by {
        assert(spec_ranges_overlap(
            b0,
            b1,
            drawn_start(diagnostics[k], source_len),
            drawn_end(diagnostics[k], source_len),
        ));
    }
}

/// A diagnostic added to the list never takes an underline away.
pub proof fn lemma_more_diagnostics_keep_underlines(
    s: Seq<char>,
    t: (int, int, TokenKind),
    source_len: int,
    diagnostics: Seq<DiagnosticView>,
    d: DiagnosticView,
)
    ensures
        span_of(s, t, source_len, diagnostics).underlined ==> span_of(
            s,
            t,
            source_len,
            diagnostics.push(d),
        ).underlined,
{
    lemma_underlined_iff_some_diagnostic(s, t, source_len, diagnostics);
    lemma_underlined_iff_some_diagnostic(s, t, source_len, diagnostics.push(d));
    if span_of(s, t, source_len, diagnostics).underlined {
        let k = choose|k: int|
            0 <= k < diagnostics.len() && {
                let d = #[trigger] diagnostics[k];
                let lo = if d.start < source_len {
                    d.start as int
                } else {
                    source_len
                };
                let wide = if d.end > d.start {
                    d.end as int
                } else {
                    d.start + 1
                };
                let hi = if wide < source_len {
                    wide
                } else {
                    source_len
                };
                utf8_len(s.take(t.0)) < hi && lo < utf8_len(s.take(t.1))
            };
        assert(diagnostics.push(d)[k] == diagnostics[k]);
    }
}

fn line_end_at(s: &Vec<char>, i: usize) -> (r: usize)
    requires
        i <= s@.len(),
    ensures
        r == line_end(s@, i as int),
{
    let n = s.len();
    let mut k = i;
    while k < n && s[k] != '\n'
        invariant
            n == s@.len(),
            i <= k <= n,
            line_end(s@, i as int) == line_end(s@, k as int),
        decreases n - k,
    {
        k = k + 1;
    }
    k
}

fn block_end_at(s: &Vec<char>, i: usize) -> (r: usize)
    requires
        i <= s@.len(),
    ensures
        r == block_end(s@, i as int),
{
    let n = s.len();
    let mut k = i;
    while n > 0 && k < n - 1 && !(s[k] == '*' && s[k + 1] == '/')
        invariant
            n == s@.len(),
            i <= k <= n,
            block_end(s@, i as int) == block_end(s@, k as int),
        decreases n - k,
    {
        k = k + 1;
    }
    if n > 0 && k < n - 1 {
        k + 2
    } else {
        n
    }
}

fn string_end_at(s: &Vec<char>, i: usize) -> (r: usize)
    requires
        i <= s@.len(),
    ensures
        r == string_end(s@, i as int, false),
{
    let n = s.len();
    let mut k = i;
    let mut escaped = false;
    while k < n
        invariant
            n == s@.len(),
            i <= k <= n,
            string_end(s@, i as int, false) == string_end(s@, k as int, escaped),
        decreases n - k,
    {
        let c = s[k];
        if c == '"' && !escaped {
            return k + 1;
        }
        escaped = c == '\\' && !escaped;
        k = k + 1;
    }
    n
}

fn word_end_at(s: &Vec<char>, i: usize) -> (r: usize)
    requires
        i <= s@.len(),
    ensures
        r == word_end(s@, i as int),
{
    let n = s.len();
    let mut k = i;
    while k < n
        invariant
            n == s@.len(),
            i <= k <= n,
            word_end(s@, i as int) == word_end(s@, k as int),
        decreases n - k,
    {
        let c = s[k];
        if !(is_alphanumeric(c) || c == '_') {
            return k;
        }
        k = k + 1;
    }
    n
}

fn keyword_list() -> (v: Vec<&'static str>)
    ensures
        v@.len() == keywords().len(),
        forall|k: int| 0 <= k < v@.len() ==> #[trigger] v@[k]@ == keywords()[k],
{
    let mut v: Vec<&'static str> = Vec::new();
    v.push("contract");
    v.push("description");
    v.push("case");
    v.push("given");
    v.push("call");
    v.push("expect");
    v.push("returns");
    v.push("throws");
    v.push("nothing");
    v.push("oneof");
    v.push("message");
    v.push("contains");
    v.push("if");
    v.push("nothrow");
    v
}

/// Whether the chars `s[i..e]` are exactly `w`.
fn chars_match(s: &Vec<char>, i: usize, e: usize, w: &Vec<char>) -> (r: bool)
    requires
        i <= e <= s@.len(),
    ensures
        r == (s@.subrange(i as int, e as int) == w@),
{
    if e - i != w.len() {
        return false;
    }
    let mut k: usize = 0;
    while k < w.len()
        invariant
            i <= e <= s@.len(),
            e - i == w@.len(),
            k <= w@.len(),
            forall|j: int| 0 <= j < k ==> s@[i + j] == w@[j],
        decreases w@.len() - k,
    {
        if s[i + k] != w[k] {
            proof {
                assert(s@.subrange(i as int, e as int)[k as int] != w@[k as int]);
            }
            return false;
        }
        k = k + 1;
    }
    proof {
        assert(s@.subrange(i as int, e as int) =~= w@);
    }
    true
}

fn is_keyword_at(s: &Vec<char>, i: usize, e: usize) -> (r: bool)
    requires
        i <= e <= s@.len(),
    ensures
        r == keywords().contains(s@.subrange(i as int, e as int)),
{
    let list = keyword_list();
    let mut k: usize = 0;
    while k < list.len()
        invariant
            i <= e <= s@.len(),
            list@.len() == keywords().len(),
            forall|j: int| 0 <= j < list@.len() ==> #[trigger] list@[j]@ == keywords()[j],
            k <= list@.len(),
            forall|j: int| 0 <= j < k ==> keywords()[j] != s@.subrange(i as int, e as int),
        decreases list@.len() - k,
    {
        let w = chars_of(list[k]);
        if chars_match(s, i, e, &w) {
            proof {
                assert(keywords()[k as int] == s@.subrange(i as int, e as int));
            }
            return true;
        }
        k = k + 1;
    }
    false
}

/// Byte offset of char index `e`, from the byte offset `b` of char index `i`.
fn advance_bytes(s: &Vec<char>, i: usize, e: usize, b: usize) -> (r: usize)
    requires
        i <= e <= s@.len(),
        b == utf8_len(s@.take(i as int)),
        utf8_len(s@) <= usize::MAX,
    ensures
        r == utf8_len(s@.take(e as int)),
{
    let mut k = i;
    let mut r = b;
    while k < e
        invariant
            i <= k <= e <= s@.len(),
            r == utf8_len(s@.take(k as int)),
            utf8_len(s@) <= usize::MAX,
        decreases e - k,
    {
        proof {
            lemma_utf8_len_prefix(s@, k + 1, s@.len() as int);
            assert(s@.take(k + 1).drop_last() =~= s@.take(k as int));
            assert(s@.take(s@.len() as int) =~= s@);
        }
        r = r + utf8_width(s[k]);
        k = k + 1;
    }
    r
}

/// Whether some diagnostic overlaps the byte range `[b0, b1)`.
fn any_overlap(b0: usize, b1: usize, source_len: usize, diagnostics: &Vec<DiagnosticView>) -> (r: bool)
    ensures
        r == underlined(b0 as int, b1 as int, source_len as int, diagnostics@),
{
    let mut k: usize = 0;
    while k < diagnostics.len()
        invariant
            k <= diagnostics@.len(),
            forall|j: int|
                0 <= j < k ==> !#[trigger] spec_ranges_overlap(
                    b0 as int,
                    b1 as int,
                    drawn_start(diagnostics@[j], source_len as int),
                    drawn_end(diagnostics@[j], source_len as int),
                ),
        decreases diagnostics@.len() - k,
    {
        let d = &diagnostics[k];
        let lo = if d.start < source_len {
            d.start
        } else {
            source_len
        };
        let hi = if d.start >= source_len {
            source_len
        } else {
            let e = if d.end > d.start {
                d.end
            } else {
                d.start + 1
            };
            if e < source_len {
                e
            } else {
                source_len
            }
        };
        assert(lo == drawn_start(diagnostics@[k as int], source_len as int));
        assert(hi == drawn_end(diagnostics@[k as int], source_len as int));
        if ranges_overlap(b0, b1, lo, hi) {
            return true;
        }
        k = k + 1;
    }
    false
}

/// Cuts `text` into tokens and tells, for each, its byte range, its kind
/// and whether one of `diagnostics` (byte spans into a source of
/// `source_len` bytes) overlaps it. The tokens follow each other without
/// gap or overlap and cover the whole text.
pub fn highlight(text: &str, source_len: usize, diagnostics: &Vec<DiagnosticView>) -> (spans: Vec<Span>)
    ensures
        spans@ == tokens_from(text@, 0).map_values(
            |t: (int, int, TokenKind)| span_of(text@, t, source_len as int, diagnostics@),
        ),
{
    let _ = byte_len(text);
    let s = chars_of(text);
    let n = s.len();
    let ghost f = |t: (int, int, TokenKind)| span_of(text@, t, source_len as int, diagnostics@);
    let mut spans: Vec<Span> = Vec::new();
    let mut i: usize = 0;
    let mut b: usize = 0;
    proof {
        assert(text@.take(0) =~= Seq::<char>::empty());
    }
    while i < n
        invariant
            s@ == text@,
            n == s@.len(),
            i <= n,
            b == utf8_len(text@.take(i as int)),
            utf8_len(text@) <= usize::MAX,
            f == (|t: (int, int, TokenKind)| span_of(text@, t, source_len as int, diagnostics@)),
            spans@ + tokens_from(text@, i as int).map_values(f) =~= tokens_from(text@, 0).map_values(f),
        decreases n - i,
    {
        proof {
            lemma_token_end_bounds(s@, i as int);
        }
        let c = s[i];
        let (e, kind) = if i + 1 < n && c == '/' && s[i + 1] == '/' {
            (line_end_at(&s, i), TokenKind::Comment)
        } else if i + 1 < n && c == '/' && s[i + 1] == '*' {
            (block_end_at(&s, i), TokenKind::Comment)
        } else if c == '"' {
            (string_end_at(&s, i + 1), TokenKind::StringLiteral)
        } else if is_alphabetic(c) || c == '_' {
            let e = word_end_at(&s, i);
            proof {
                lemma_word_end_bounds(s@, i as int);
            }
            if is_keyword_at(&s, i, e) {
                (e, TokenKind::Keyword)
            } else {
                (e, TokenKind::Plain)
            }
        } else {
            (i + 1, TokenKind::Plain)
        };
        assert(e == token_end(s@, i as int));
        assert(kind == token_kind(s@, i as int));
        let b1 = advance_bytes(&s, i, e, b);
        let u = any_overlap(b, b1, source_len, diagnostics);
        spans.push(Span { start: b, end: b1, kind, underlined: u });
        proof {
            let t = (i as int, e as int, kind);
            assert(tokens_from(text@, i as int) == seq![t] + tokens_from(text@, e as int));
            assert(f(t) == Span { start: b, end: b1, kind, underlined: u });
            assert((seq![t] + tokens_from(text@, e as int)).map_values(f) =~= seq![f(t)]
                + tokens_from(text@, e as int).map_values(f));
        }
        i = e;
        b = b1;
    }
    proof {
        assert(tokens_from(text@, n as int) == Seq::<(int, int, TokenKind)>::empty());
        assert(tokens_from(text@, n as int).map_values(f) =~= Seq::<Span>::empty());
        assert(spans@ =~= spans@ + Seq::<Span>::empty());
    }
    spans
}

} // verus!
