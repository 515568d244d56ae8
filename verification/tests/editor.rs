use cxxpect_editor::diagnostics::{DiagnosticView, Location};
use cxxpect_editor::editor::{gutter, EditorResult};
use cxxpect_editor::highlight::{highlight, Span, TokenKind};
use cxxpect_editor::text::{byte_at_char, char_to_byte, line_and_column, lines_in, ranges_overlap};

fn diag(start: usize, end: usize) -> DiagnosticView {
    DiagnosticView {
        code: "E1".to_string(),
        message: "bad".to_string(),
        note: None,
        start,
        end,
        location: Location { line: 1, column: 1, char_offset: 0 },
    }
}

fn spans(text: &str) -> Vec<(String, TokenKind, bool)> {
    highlight(text, text.len(), &Vec::new())
        .into_iter()
        .map(|s: Span| (text[s.start..s.end].to_string(), s.kind, s.underlined))
        .collect()
}

#[test]
fn unicode_char_index_maps_to_bytes() {
    assert_eq!(byte_at_char("aЯb", 2), 3);
}

#[test]
fn overlap_works() {
    assert!(ranges_overlap(2, 5, 4, 8));
    assert!(!ranges_overlap(0, 2, 2, 4));
}

#[test]
fn overlap_is_symmetric() {
    assert_eq!(ranges_overlap(4, 8, 2, 5), ranges_overlap(2, 5, 4, 8));
    assert_eq!(ranges_overlap(2, 4, 0, 2), ranges_overlap(0, 2, 2, 4));
}

#[test]
fn byte_offsets_past_the_end() {
    assert_eq!(byte_at_char("aЯb", 0), 0);
    assert_eq!(byte_at_char("aЯb", 3), 4);
    assert_eq!(byte_at_char("aЯb", 10), 4);
    assert_eq!(char_to_byte("€x", 1), 3);
    assert_eq!(char_to_byte("😀", 1), 4);
}

#[test]
fn highlight_kinds() {
    let got = spans("contract X { // hi\n \"a\\\"b\" /* c */ x_1 ? }");
    let want = vec![
        ("contract".to_string(), TokenKind::Keyword, false),
        (" ".to_string(), TokenKind::Plain, false),
        ("X".to_string(), TokenKind::Plain, false),
        (" ".to_string(), TokenKind::Plain, false),
        ("{".to_string(), TokenKind::Plain, false),
        (" ".to_string(), TokenKind::Plain, false),
        ("// hi".to_string(), TokenKind::Comment, false),
        ("\n".to_string(), TokenKind::Plain, false),
        (" ".to_string(), TokenKind::Plain, false),
        ("\"a\\\"b\"".to_string(), TokenKind::StringLiteral, false),
        (" ".to_string(), TokenKind::Plain, false),
        ("/* c */".to_string(), TokenKind::Comment, false),
        (" ".to_string(), TokenKind::Plain, false),
        ("x_1".to_string(), TokenKind::Plain, false),
        (" ".to_string(), TokenKind::Plain, false),
        ("?".to_string(), TokenKind::Plain, false),
        (" ".to_string(), TokenKind::Plain, false),
        ("}".to_string(), TokenKind::Plain, false),
    ];
    assert_eq!(got, want);
}

#[test]
fn highlight_unterminated_tokens_run_to_the_end() {
    assert_eq!(spans("/* open"), vec![("/* open".to_string(), TokenKind::Comment, false)]);
    assert_eq!(spans("\"open\\"), vec![("\"open\\".to_string(), TokenKind::StringLiteral, false)]);
    assert_eq!(spans("/*/"), vec![("/*/".to_string(), TokenKind::Comment, false)]);
    assert_eq!(spans("//x"), vec![("//x".to_string(), TokenKind::Comment, false)]);
    assert!(spans("").is_empty());
}

#[test]
fn highlight_words_with_unicode() {
    assert_eq!(spans("Яx expectation"), vec![
        ("Яx".to_string(), TokenKind::Plain, false),
        (" ".to_string(), TokenKind::Plain, false),
        ("expectation".to_string(), TokenKind::Plain, false),
    ]);
    assert_eq!(spans("_if if"), vec![
        ("_if".to_string(), TokenKind::Plain, false),
        (" ".to_string(), TokenKind::Plain, false),
        ("if".to_string(), TokenKind::Keyword, false),
    ]);
    assert_eq!(spans("1a"), vec![
        ("1".to_string(), TokenKind::Plain, false),
        ("a".to_string(), TokenKind::Plain, false),
    ]);
}

#[test]
fn highlight_spans_cover_the_text() {
    let text = "contract Я { case c { given int v = 1; } } // end\n\"x\"";
    let s = highlight(text, text.len(), &Vec::new());
    assert_eq!(s[0].start, 0);
    assert_eq!(s[s.len() - 1].end, text.len());
    for w in s.windows(2) {
        assert_eq!(w[0].end, w[1].start);
        assert!(w[0].start < w[0].end);
    }
}

#[test]
fn highlight_underlines_diagnostics() {
    let text = "call x;";
    let s = highlight(text, text.len(), &vec![diag(5, 5)]);
    let under: Vec<bool> = s.iter().map(|s| s.underlined).collect();
    assert_eq!(under, vec![false, false, true, false]);
    // A span past the source is drawn over its last byte.
    let s = highlight(text, 4, &vec![diag(10, 12)]);
    let under: Vec<bool> = s.iter().map(|s| s.underlined).collect();
    assert_eq!(under, vec![false, false, false, false]);
    let s = highlight(text, text.len(), &vec![diag(0, 7)]);
    assert!(s.iter().all(|s| s.underlined));
}

#[test]
fn cursor_line_and_column() {
    assert_eq!(line_and_column("ab\ncd", 4), (2, 2));
    assert_eq!(line_and_column("ab\ncd", 3), (2, 1));
    assert_eq!(line_and_column("ab\ncd", 99), (2, 3));
    assert_eq!(line_and_column("", 0), (1, 1));
    let r = EditorResult::at_cursor("Я\nx", Some(3), true);
    assert_eq!(r, EditorResult { changed: true, cursor_line: 2, cursor_column: 2 });
    let r = EditorResult::at_cursor("Я\nx", None, false);
    assert_eq!(r, EditorResult { changed: false, cursor_line: 1, cursor_column: 1 });
}

#[test]
fn lines_match_str_lines() {
    for t in ["", "a", "a\n", "a\nb", "\n", "\n\n", "a\r\nb\r\n"] {
        assert_eq!(lines_in(t), t.lines().count());
    }
}

#[test]
fn gutter_numbers_lines() {
    assert_eq!(gutter(""), "   1\n");
    assert_eq!(gutter("a\nb\n"), "   1\n   2\n");
    let text = "\n".repeat(12345);
    let g = gutter(&text);
    assert!(g.ends_with("12344\n12345\n"));
    assert!(g.starts_with("   1\n   2\n"));
}

#[test]
fn every_reserved_word_is_a_keyword() {
    for w in [
        "contract", "description", "case", "given", "call", "expect", "returns", "throws", "nothing", "oneof",
        "message", "contains", "if", "nothrow",
    ] {
        assert_eq!(spans(w), vec![(w.to_string(), TokenKind::Keyword, false)]);
        let longer = format!("{w}s");
        assert_eq!(spans(&longer), vec![(longer.clone(), TokenKind::Plain, false)]);
    }
    assert_eq!(spans("Contract"), vec![("Contract".to_string(), TokenKind::Plain, false)]);
}
