//! Decisions of the editor session: what a command does, and when an
//! action that would drop unsaved changes must be confirmed first.
//!
//! The caller performs the effects (dialogs, file I/O, closing the window)
//! and reports back what the user chose.

use vstd::prelude::*;

use std::path::PathBuf;

use crate::text::chars_of;

verus! {

/// The commands that menus, toolbar and shortcuts share.
#[derive(Clone, Copy, Debug, PartialEq, Eq)]
pub enum Command {
    New,
    Open,
    Save,
    SaveAs,
    Quit,
    Undo,
    Redo,
    Find,
    NextDiagnostic,
    ToggleTheme,
}

/// An action that replaces or leaves the document, held back while the
/// user is asked about unsaved changes.
pub enum Pending {
    /// Start a new document.
    New,
    /// Ask for a file to open.
    Open,
    /// Open the given file.
    OpenPath(PathBuf),
    /// Close the window.
    Quit,
}

/// What the caller does after a command.
pub enum Effect {
    /// Nothing more (the command is waiting for confirmation, or had none).
    Nothing,
    /// Carry out the action now.
    Complete(Pending),
    /// Close the window.
    Close,
    /// Save the document; with a dialog for the path where `force_dialog`
    /// holds or the document has no path.
    Save { force_dialog: bool },
    /// Show the find and replace window.
    OpenFind,
    /// Send an undo to the editor.
    Undo,
    /// Send a redo to the editor.
    Redo,
    /// Move to the next diagnostic.
    NextDiagnostic,
    /// Switch between the dark and the light theme.
    ToggleTheme,
}

/// The user's answer to the question about unsaved changes.
#[derive(Clone, Copy, Debug, PartialEq, Eq)]
pub enum Choice {
    /// "Save" was pressed; `saved` tells whether saving succeeded.
    Save { saved: bool },
    /// "Discard" was pressed.
    Discard,
    /// "Cancel" was pressed.
    Cancel,
}

/// What follows an answer.
pub enum Resolution {
    /// Keep things as they are.
    Stay,
    /// Carry out the held action now.
    Complete(Pending),
    /// Close the window.
    Close,
}

/// Runs `p` at once on a clean document; holds it for confirmation on a
/// dirty one. Gives the action to carry out now, if any.
pub fn guard(confirm: &mut Option<Pending>, dirty: bool, p: Pending) -> (now: Option<Pending>)
    ensures
        dirty ==> now is None && *final(confirm) == Some(p),
        !dirty ==> now == Some(p) && *final(confirm) == *old(confirm),
{
    if dirty {
        *confirm = Some(p);
        None
    } else {
        Some(p)
    }
}

/// What command `c` does, on a document that is `dirty` or not. New, Open
/// and Quit go through the confirmation of unsaved changes; the other
/// commands leave `confirm` as it was. No command replaces a dirty
/// document or closes its window without asking first.
pub fn dispatch(confirm: &mut Option<Pending>, dirty: bool, c: Command) -> (e: Effect)
    ensures
        dirty ==> !(e is Complete) && !(e is Close),
        match c {
            Command::New => if dirty {
                e is Nothing && *final(confirm) == Some(Pending::New)
            } else {
                e == Effect::Complete(Pending::New) && *final(confirm) == *old(confirm)
            },
            Command::Open => if dirty {
                e is Nothing && *final(confirm) == Some(Pending::Open)
            } else {
                e == Effect::Complete(Pending::Open) && *final(confirm) == *old(confirm)
            },
            Command::Quit => if dirty {
                e is Nothing && *final(confirm) == Some(Pending::Quit)
            } else {
                e is Close && *final(confirm) == *old(confirm)
            },
            Command::Save => e == Effect::Save { force_dialog: false } && *final(confirm) == *old(
                confirm,
            ),
            Command::SaveAs => e == Effect::Save { force_dialog: true } && *final(confirm) == *old(
                confirm,
            ),
            Command::Find => e is OpenFind && *final(confirm) == *old(confirm),
            Command::Undo => e is Undo && *final(confirm) == *old(confirm),
            Command::Redo => e is Redo && *final(confirm) == *old(confirm),
            Command::NextDiagnostic => e is NextDiagnostic && *final(confirm) == *old(confirm),
            Command::ToggleTheme => e is ToggleTheme && *final(confirm) == *old(confirm),
        },
{
    match c {
        Command::New => match guard(confirm, dirty, Pending::New) {
            Some(p) => Effect::Complete(p),
            None => Effect::Nothing,
        },
        Command::Open => match guard(confirm, dirty, Pending::Open) {
            Some(p) => Effect::Complete(p),
            None => Effect::Nothing,
        },
        Command::Quit => {
            if dirty {
                *confirm = Some(Pending::Quit);
                Effect::Nothing
            } else {
                Effect::Close
            }
        },
        Command::Save => Effect::Save { force_dialog: false },
        Command::SaveAs => Effect::Save { force_dialog: true },
        Command::Find => Effect::OpenFind,
        Command::Undo => Effect::Undo,
        Command::Redo => Effect::Redo,
        Command::NextDiagnostic => Effect::NextDiagnostic,
        Command::ToggleTheme => Effect::ToggleTheme,
    }
}

/// The window was asked to close. On a dirty document the close is
/// cancelled and the user is asked first; gives whether to cancel it.
pub fn close_requested(confirm: &mut Option<Pending>, dirty: bool) -> (cancel: bool)
    ensures
        cancel == dirty,
        dirty ==> *final(confirm) == Some(Pending::Quit),
        !dirty ==> *final(confirm) == *old(confirm),
{
    if dirty {
        *confirm = Some(Pending::Quit);
        true
    } else {
        false
    }
}

/// A file was dropped on the window. Gives the path to open now, on a
/// clean document; on a dirty one the opening waits for confirmation.
pub fn file_dropped(confirm: &mut Option<Pending>, dirty: bool, path: PathBuf) -> (open: Option<PathBuf>)
    ensures
        dirty ==> open is None && *final(confirm) == Some(Pending::OpenPath(path)),
        !dirty ==> open == Some(path) && *final(confirm) == *old(confirm),
{
    if dirty {
        *confirm = Some(Pending::OpenPath(path));
        None
    } else {
        Some(path)
    }
}

/// The code of `c` with ASCII capitals made small.
pub open spec fn ascii_lower(c: char) -> u32 {
    if 65 <= (c as u32) <= 90 {
        (c as u32 + 32) as u32
    } else {
        c as u32
    }
}

/// Whether `a` and `b` are equal but for the case of ASCII letters.
pub open spec fn eq_ignore_ascii_case(a: Seq<char>, b: Seq<char>) -> bool {
    a.len() == b.len() && forall|i: int| 0 <= i < a.len() ==> #[trigger] ascii_lower(a[i]) == ascii_lower(b[i])
}

/// The extension of contract files.
pub const CONTRACT_EXTENSION: &'static str = "cxxp";

fn lower_code(c: char) -> (r: u32)
    ensures
        r == ascii_lower(c),
{
    let u = c as u32;
    if 65 <= u && u <= 90 {
        u + 32
    } else {
        u
    }
}

/// Whether `ext` names contract files: "cxxp" in any case of letters.
pub fn is_contract_extension(ext: &str) -> (r: bool)
    ensures
        r == eq_ignore_ascii_case(ext@, CONTRACT_EXTENSION@),
{
    let a = chars_of(ext);
    let b = chars_of(CONTRACT_EXTENSION);
    if a.len() != b.len() {
        return false;
    }
    let mut i: usize = 0;
    while i < a.len()
        invariant
            a@ == ext@,
            b@ == CONTRACT_EXTENSION@,
            a@.len() == b@.len(),
            i <= a@.len(),
            forall|j: int| 0 <= j < i ==> #[trigger] ascii_lower(a@[j]) == ascii_lower(b@[j]),
        decreases a@.len() - i,
    {
        if lower_code(a[i]) != lower_code(b[i]) {
            return false;
        }
        i = i + 1;
    }
    true
}

/// What `Path::extension` gives for `path`, as chars: the part of its
/// file name after the last `.`, if it has one.
pub uninterp spec fn extension(path: PathBuf) -> Option<Seq<char>>;

/// Calls `Path::extension` on `path` and turns the extension it gives
/// into a `String` (lossily, as `OsStr::to_string_lossy` does). The
/// contract ties the result to `path` through the name `extension`; how a
/// path splits into components is not restated here.
#[verifier::external_body]
fn extension_of(path: &PathBuf) -> (r: Option<String>)
    ensures
        match r {
            Some(s) => extension(*path) == Some(s@),
            None => extension(*path) is None,
        },
{
    path.extension().map(|e| e.to_string_lossy().into_owned())
}

/// Whether a path whose extension is `ext` (none where `None`) is taken
/// for a contract: it has an extension, and that extension names contract
/// files.
pub fn is_contract_extension_of(ext: &Option<String>) -> (r: bool)
    ensures
        r == (ext matches Some(e) && eq_ignore_ascii_case(e@, CONTRACT_EXTENSION@)),
{
    match ext {
        Some(e) => is_contract_extension(e.as_str()),
        None => false,
    }
}

/// Whether a dropped file is taken for a contract: its path has an
/// extension, and that extension names contract files.
pub fn is_contract_file(path: &PathBuf) -> (r: bool)
    ensures
        r == (extension(*path) matches Some(e) && eq_ignore_ascii_case(e, CONTRACT_EXTENSION@)),
{
    is_contract_extension_of(&extension_of(path))
}

/// The user answered the question about unsaved changes. A successful
/// save or a discard lets the held action go ahead (closing the window
/// where it was a quit); a cancel drops it; a failed save keeps asking.
pub fn resolve(confirm: &mut Option<Pending>, choice: Choice) -> (r: Resolution)
    ensures
        match choice {
            Choice::Save { saved: false } => r is Stay && *final(confirm) == *old(confirm),
            Choice::Cancel => r is Stay && *final(confirm) is None,
            _ => *final(confirm) is None && match *old(confirm) {
                Some(Pending::Quit) => r is Close,
                Some(p) => r == Resolution::Complete(p),
                None => r is Stay,
            },
        },
{
    match choice {
        Choice::Save { saved: false } => Resolution::Stay,
        Choice::Cancel => {
            *confirm = None;
            Resolution::Stay
        },
        _ => match confirm.take() {
            Some(Pending::Quit) => Resolution::Close,
            Some(p) => Resolution::Complete(p),
            None => Resolution::Stay,
        },
    }
}

} // verus!
