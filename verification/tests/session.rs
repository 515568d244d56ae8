use std::path::PathBuf;

use cxxpect_editor::diagnostics::{next_diagnostic, panel_heading, panel_hover, panel_jump, panel_label, DiagnosticView, Location};
use cxxpect_editor::search::{find_next, replace_all};
use cxxpect_editor::session::{
    close_requested, dispatch, file_dropped, guard, is_contract_extension, is_contract_extension_of, is_contract_file, resolve,
    Choice, Command, Effect, Pending, Resolution,
};
use cxxpect_editor::status::{cursor_text, diagnostic_count_text, encoding_text, title_with_marker, verifier_state_text};

fn diag(offset: usize, note: Option<&str>) -> DiagnosticView {
    DiagnosticView {
        code: "V12".to_string(),
        message: "unexpected token".to_string(),
        note: note.map(|n| n.to_string()),
        start: 0,
        end: 1,
        location: Location { line: 3, column: 14, char_offset: offset },
    }
}

#[test]
fn find_next_searches_forward_then_wraps() {
    assert_eq!(find_next("abcabc", "bc", 0), Some(1));
    assert_eq!(find_next("abcabc", "bc", 2), Some(4));
    assert_eq!(find_next("abcabc", "bc", 5), Some(1));
    assert_eq!(find_next("abcabc", "x", 0), None);
    // A match that straddles the cursor is found by neither half.
    assert_eq!(find_next("abc", "bc", 2), None);
    assert_eq!(find_next("ЯЯx", "x", 100), Some(2));
    assert_eq!(find_next("ab", "ab", 0), Some(0));
}

#[test]
fn replace_all_matches_str_replace() {
    for (t, p, r) in [("aaa", "aa", "b"), ("abcabc", "bc", "X"), ("Яx", "Я", "ЯЯ"), ("", "a", "b"), ("abc", "d", "")] {
        assert_eq!(replace_all(t, p, r), Some(t.replace(p, r)));
    }
    assert_eq!(replace_all("abc", "", "x"), None);
    assert_eq!(replace_all("abcab", "ab", "ab"), Some("abcab".to_string()));
}

#[test]
fn dirty_document_is_never_dropped_unasked() {
    for c in [Command::New, Command::Open, Command::Quit] {
        let mut confirm = None;
        let e = dispatch(&mut confirm, true, c);
        assert!(matches!(e, Effect::Nothing));
        assert!(confirm.is_some());
    }
    let mut confirm = None;
    assert!(close_requested(&mut confirm, true));
    assert!(matches!(confirm, Some(Pending::Quit)));
    let mut confirm = None;
    assert!(file_dropped(&mut confirm, true, PathBuf::from("x.cxxp")).is_none());
    assert!(matches!(confirm, Some(Pending::OpenPath(_))));
}

#[test]
fn clean_document_acts_at_once() {
    let mut confirm = None;
    assert!(matches!(dispatch(&mut confirm, false, Command::New), Effect::Complete(Pending::New)));
    assert!(matches!(dispatch(&mut confirm, false, Command::Open), Effect::Complete(Pending::Open)));
    assert!(matches!(dispatch(&mut confirm, false, Command::Quit), Effect::Close));
    assert!(matches!(dispatch(&mut confirm, false, Command::Save), Effect::Save { force_dialog: false }));
    assert!(matches!(dispatch(&mut confirm, true, Command::SaveAs), Effect::Save { force_dialog: true }));
    assert!(matches!(dispatch(&mut confirm, true, Command::Find), Effect::OpenFind));
    assert!(matches!(dispatch(&mut confirm, true, Command::Undo), Effect::Undo));
    assert!(matches!(dispatch(&mut confirm, true, Command::Redo), Effect::Redo));
    assert!(matches!(dispatch(&mut confirm, true, Command::NextDiagnostic), Effect::NextDiagnostic));
    assert!(matches!(dispatch(&mut confirm, true, Command::ToggleTheme), Effect::ToggleTheme));
    assert!(confirm.is_none());
    assert!(!close_requested(&mut confirm, false));
    assert_eq!(file_dropped(&mut confirm, false, PathBuf::from("y.cxxp")), Some(PathBuf::from("y.cxxp")));
    assert!(matches!(guard(&mut confirm, false, Pending::New), Some(Pending::New)));
    assert!(confirm.is_none());
}

#[test]
fn answering_the_question() {
    let mut confirm = Some(Pending::New);
    assert!(matches!(resolve(&mut confirm, Choice::Save { saved: false }), Resolution::Stay));
    assert!(confirm.is_some());
    assert!(matches!(resolve(&mut confirm, Choice::Save { saved: true }), Resolution::Complete(Pending::New)));
    assert!(confirm.is_none());
    let mut confirm = Some(Pending::Quit);
    assert!(matches!(resolve(&mut confirm, Choice::Discard), Resolution::Close));
    let mut confirm = Some(Pending::Open);
    assert!(matches!(resolve(&mut confirm, Choice::Cancel), Resolution::Stay));
    assert!(confirm.is_none());
    let mut confirm = None;
    assert!(matches!(resolve(&mut confirm, Choice::Discard), Resolution::Stay));
}

#[test]
fn contract_files_by_extension() {
    assert!(is_contract_extension("cxxp"));
    assert!(is_contract_extension("CxXP"));
    assert!(!is_contract_extension("cxx"));
    assert!(!is_contract_extension("cxxpp"));
    assert!(is_contract_file(&PathBuf::from("dir/a.CXXP")));
    assert!(!is_contract_file(&PathBuf::from("dir/a.txt")));
    assert!(!is_contract_file(&PathBuf::from("dir/cxxp")));
}

#[test]
fn next_diagnostic_cycles() {
    let ds = vec![diag(5, None), diag(9, None), diag(20, None)];
    assert_eq!(next_diagnostic(0, &ds), Some((1, 9)));
    assert_eq!(next_diagnostic(2, &ds), Some((0, 5)));
    assert_eq!(next_diagnostic(usize::MAX, &ds), Some((1, 9)));
    assert_eq!(next_diagnostic(0, &Vec::new()), None);
}

#[test]
fn panel_texts() {
    let d = diag(7, Some("try a semicolon"));
    assert_eq!(panel_label(&d, true), "V12  3:14  unexpected token");
    assert_eq!(panel_label(&d, false), "V12    unexpected token");
    assert_eq!(panel_hover(&d), "try a semicolon");
    assert_eq!(panel_hover(&diag(7, None)), "unexpected token");
    assert_eq!(panel_jump(&d, true), Some(7));
    assert_eq!(panel_jump(&d, false), None);
    assert_eq!(panel_heading(12), "Diagnostics (12)");
}

#[test]
fn status_texts() {
    assert_eq!(title_with_marker("a.cxxp", true), "a.cxxp *");
    assert_eq!(title_with_marker("a.cxxp", false), "a.cxxp");
    assert_eq!(cursor_text(10, 203), "Ln 10, Col 203");
    assert_eq!(verifier_state_text(true, 3), "Checking...");
    assert_eq!(verifier_state_text(false, 0), "No errors");
    assert_eq!(verifier_state_text(false, 3), "Errors");
    assert_eq!(diagnostic_count_text(0), "0 diagnostic(s)");
    assert_eq!(encoding_text("CRLF"), "UTF-8 · CRLF");
}

#[test]
fn contract_extension_of_an_optional_extension() {
    assert!(is_contract_extension_of(&Some("CXXP".to_string())));
    assert!(!is_contract_extension_of(&Some("txt".to_string())));
    assert!(!is_contract_extension_of(&None));
}
