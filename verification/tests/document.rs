use std::path::PathBuf;

use cxxpect_editor::document::{contains_crlf, title_for, Document, TEMPLATE, UNTITLED};

#[test]
fn dirty_tracks_saved_content() {
    let mut d = Document::new();
    assert!(!d.is_dirty());
    d.text.push('x');
    assert!(d.is_dirty());
}

#[test]
fn revision_advances() {
    let mut d = Document::new();
    d.changed();
    assert_eq!(d.revision, 1);
}

#[test]
fn new_document_holds_the_template() {
    let d = Document::new();
    assert_eq!(d.text, TEMPLATE);
    assert_eq!(d.revision, 0);
    assert_eq!(d.line_ending, "LF");
    assert!(d.path.is_none());
    assert_eq!(d.title(), "Untitled.cxxp");
}

#[test]
fn default_is_new() {
    let d = Document::default();
    assert_eq!(d.text, TEMPLATE);
    assert!(!d.is_dirty());
}

#[test]
fn revision_wraps_at_the_top() {
    let mut d = Document::new();
    d.revision = u64::MAX;
    d.changed();
    assert_eq!(d.revision, 0);
    d.changed();
    d.changed();
    assert_eq!(d.revision, 2);
}

#[test]
fn changed_keeps_the_text_and_dirty_state() {
    let mut d = Document::new();
    d.changed();
    assert!(!d.is_dirty());
    assert_eq!(d.text, TEMPLATE);
}

#[test]
fn opened_document_is_clean_and_detects_crlf() {
    let d = Document::opened(PathBuf::from("dir/a.cxxp"), "x\r\ny".to_string());
    assert!(!d.is_dirty());
    assert_eq!(d.line_ending, "CRLF");
    assert_eq!(d.revision, 0);
    assert_eq!(d.text, "x\r\ny");
    assert_eq!(d.title(), "a.cxxp");
    let d = Document::opened(PathBuf::from("b.cxxp"), "x\ny\r".to_string());
    assert_eq!(d.line_ending, "LF");
}

#[test]
fn saving_clears_dirty() {
    let mut d = Document::new();
    d.text.push_str("more");
    assert!(d.is_dirty());
    d.saved_to(PathBuf::from("/tmp/out.cxxp"));
    assert!(!d.is_dirty());
    assert_eq!(d.title(), "out.cxxp");
    assert!(d.text.ends_with("more"));
}

#[test]
fn title_falls_back_to_untitled() {
    assert_eq!(title_for(None), UNTITLED);
    assert_eq!(title_for(Some("x.cxxp".to_string())), "x.cxxp");
    let d = Document::opened(PathBuf::from(".."), String::new());
    assert_eq!(d.title(), "Untitled.cxxp");
}

#[test]
fn crlf_detection() {
    assert!(contains_crlf("\r\n"));
    assert!(!contains_crlf("\n\r"));
    assert!(!contains_crlf(""));
    assert!(contains_crlf("ab\r\ncd"));
}
