//! The texts of the menu bar's title and of the status bar.

use vstd::prelude::*;

use crate::format::{decimal, push_decimal};

verus! {

/// The document title in the menu bar, marked with " *" while the
/// document has unsaved changes.
pub fn title_with_marker(title: &str, dirty: bool) -> (s: String)
    ensures
        s@ == title@ + (if dirty {
            " *"@
        } else {
            Seq::<char>::empty()
        }),
{
    let mut s = String::new();
    s.append(title);
    if dirty {
        s.append(" *");
    }
    assert(s@ =~= title@ + (if dirty {
        " *"@
    } else {
        Seq::<char>::empty()
    }));
    s
}

/// "Ln {line}, Col {column}".
pub fn cursor_text(line: usize, column: usize) -> (s: String)
    ensures
        s@ == "Ln "@ + decimal(line as nat) + ", Col "@ + decimal(column as nat),
{
    let mut s = String::new();
    s.append("Ln ");
    push_decimal(&mut s, line);
    s.append(", Col ");
    push_decimal(&mut s, column);
    s
}

/// What the verifier's state reads as: checking while it runs, otherwise
/// whether any diagnostic was found.
pub fn verifier_state_text(running: bool, count: usize) -> (s: &'static str)
    ensures
        running ==> s@ == "Checking..."@,
        !running && count == 0 ==> s@ == "No errors"@,
        !running && count > 0 ==> s@ == "Errors"@,
{
    if running {
        "Checking..."
    } else if count == 0 {
        "No errors"
    } else {
        "Errors"
    }
}

/// "{count} diagnostic(s)".
pub fn diagnostic_count_text(count: usize) -> (s: String)
    ensures
        s@ == decimal(count as nat) + " diagnostic(s)"@,
{
    let mut s = String::new();
    push_decimal(&mut s, count);
    s.append(" diagnostic(s)");
    s
}

/// The encoding and line ending of the document.
pub fn encoding_text(line_ending: &str) -> (s: String)
    ensures
        s@ == "UTF-8 · "@ + line_ending@,
{
    let mut s = String::new();
    s.append("UTF-8 · ");
    s.append(line_ending);
    s
}

} // verus!
