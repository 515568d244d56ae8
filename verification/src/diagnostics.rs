//! Diagnostics as the editor shows them, and moving between them.

use vstd::prelude::*;

use crate::format::{decimal, push_decimal};
use crate::text::push_char;

verus! {

/// Where a diagnostic starts in its source: a 1-based line and column, and
/// the char offset that the editor's cursor jumps to.
#[derive(Clone, Copy, Debug, PartialEq, Eq)]
pub struct Location {
    pub line: usize,
    pub column: usize,
    pub char_offset: usize,
}

/// A diagnostic of the verifier, with its byte span in the source and the
/// location of the span's start.
#[derive(Clone, Debug)]
pub struct DiagnosticView {
    pub code: String,
    pub message: String,
    pub note: Option<String>,
    pub start: usize,
    pub end: usize,
    pub location: Location,
}


/// Where "next diagnostic" moves from the diagnostic at `index`: the next
/// one, wrapping from the last to the first, with the char offset that the
/// cursor jumps to. Without diagnostics nothing moves.
pub fn next_diagnostic(index: usize, diagnostics: &Vec<DiagnosticView>) -> (r: Option<(usize, usize)>)
    ensures
        diagnostics@.len() == 0 ==> r is None,
        diagnostics@.len() > 0 ==> (r matches Some((i, offset)) && i == (index + 1) % (
        diagnostics@.len() as int) && offset == diagnostics@[i as int].location.char_offset),
{
    let n = diagnostics.len();
    if n == 0 {
        return None;
    }
    let i = (index % n + 1) % n;
    proof {
        vstd::arithmetic::div_mod::lemma_add_mod_noop_right(1, index as int, n as int);
        vstd::arithmetic::div_mod::lemma_mod_bound(index as int, n as int);
    }
    assert(i == (index + 1) % (n as int));
    Some((i, diagnostics[i].location.char_offset))
}

/// The heading of the diagnostics panel.
pub fn panel_heading(count: usize) -> (h: String)
    ensures
        h@ == "Diagnostics ("@ + decimal(count as nat) + ")"@,
{
    let mut h = String::new();
    h.append("Diagnostics (");
    push_decimal(&mut h, count);
    h.append(")");
    h
}

/// "line:column" of a location.
pub open spec fn position_text(l: Location) -> Seq<char> {
    decimal(l.line as nat) + seq![':'] + decimal(l.column as nat)
}

/// The line of the panel for `d`: its code, its position where its source
/// is known (`located`), and its message, two spaces apart.
pub fn panel_label(d: &DiagnosticView, located: bool) -> (s: String)
    ensures
        s@ == d.code@ + "  "@ + (if located {
            position_text(d.location)
        } else {
            Seq::<char>::empty()
        }) + "  "@ + d.message@,
{
    let mut s = String::new();
    s.append(d.code.as_str());
    s.append("  ");
    if located {
        push_decimal(&mut s, d.location.line);
        push_char(&mut s, ':');
        push_decimal(&mut s, d.location.column);
    }
    s.append("  ");
    s.append(d.message.as_str());
    assert(s@ =~= d.code@ + "  "@ + (if located {
        position_text(d.location)
    } else {
        Seq::<char>::empty()
    }) + "  "@ + d.message@);
    s
}

/// The hover text of a diagnostic: its note, or its message where it has
/// none.
pub fn panel_hover(d: &DiagnosticView) -> (s: String)
    ensures
        d.note matches Some(n) ==> s@ == n@,
        d.note is None ==> s@ == d.message@,
{
    match &d.note {
        Some(n) => n.clone(),
        None => d.message.clone(),
    }
}

/// Where a click on the panel's line for `d` moves the cursor: to the
/// char offset of its start, where its source is known.
pub fn panel_jump(d: &DiagnosticView, located: bool) -> (r: Option<usize>)
    ensures
        r == (if located {
            Some(d.location.char_offset)
        } else {
            None
        }),
{
    if located {
        Some(d.location.char_offset)
    } else {
        None
    }
}

} // verus!
