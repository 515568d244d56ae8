//! The one open document: its path, text, saved snapshot, revision and
//! line ending.

use vstd::prelude::*;

use std::path::PathBuf;

use crate::text::chars_of;

verus! {

/// `std::path::PathBuf`, carried through as an opaque value.
#[verifier::external_type_specification]
#[verifier::external_body]
pub struct ExPathBuf(PathBuf);

/// The text of a new document.
pub const TEMPLATE: &'static str = "contract Example {\n    case works {\n        given int value = 1;\n        call value++;\n        expect returns 2;\n    }\n}\n";

/// The title of a document that has no path, or whose path has no file name.
pub const UNTITLED: &'static str = "Untitled.cxxp";

/// Whether `s` holds a carriage return directly followed by a line feed.
pub open spec fn has_crlf(s: Seq<char>) -> bool {
    exists|i: int| 0 <= i && i + 1 < s.len() && #[trigger] s[i] == '\r' && s[i + 1] == '\n'
}

/// The revision that follows `r`: one more, wrapping to 0 past the
/// largest `u64`.
pub open spec fn next_revision(r: u64) -> u64 {
    if r == u64::MAX {
        0
    } else {
        (r + 1) as u64
    }
}

/// Each edit moves the revision strictly forward, until the largest `u64`,
/// where it wraps to 0.
pub proof fn lemma_revision_increases(r: u64)
    ensures
        r < u64::MAX ==> next_revision(r) > r,
        r == u64::MAX ==> next_revision(r) == 0,
{
}

/// The document being edited.
pub struct Document {
    pub path: Option<PathBuf>,
    pub text: String,
    /// The text as it was last opened or saved.
    pub saved_text: String,
    pub revision: u64,
    pub line_ending: &'static str,
}

impl Document {
    /// Whether the text differs from what was last opened or saved.
    pub open spec fn dirty(&self) -> bool {
        self.text@ != self.saved_text@
    }

    /// A new, untitled document holding the template, not dirty, at
    /// revision 0, with LF line endings.
    pub fn new() -> (d: Self)
        ensures
            d.path is None,
            d.text@ == TEMPLATE@,
            d.saved_text@ == TEMPLATE@,
            !d.dirty(),
            d.revision == 0,
            d.line_ending@ == "LF"@,
    {
        Document {
            path: None,
            text: TEMPLATE.to_owned(),
            saved_text: TEMPLATE.to_owned(),
            revision: 0,
            line_ending: "LF",
        }
    }
}

/// What `Path::file_name` gives for `path`, as chars: the last component
/// of the path, if it has one that is a file or directory name.
pub uninterp spec fn file_name(path: PathBuf) -> Option<Seq<char>>;

/// Calls `Path::file_name` on `path` and turns the name it gives into a
/// `String` (lossily, as `OsStr::to_string_lossy` does). The contract ties
/// the result to `path` through the name `file_name`; how a path splits
/// into components is not restated here.
#[verifier::external_body]
fn file_name_of(path: &PathBuf) -> (r: Option<String>)
    ensures
        match r {
            Some(s) => file_name(*path) == Some(s@),
            None => file_name(*path) is None,
        },
{
    path.file_name().map(|v| v.to_string_lossy().into_owned())
}

/// The window title for a document whose path has the file name `name`,
/// if any: that name, else the untitled name.
pub fn title_for(name: Option<String>) -> (t: String)
    ensures
        name matches Some(n) ==> t@ == n@,
        name is None ==> t@ == UNTITLED@,
{
    match name {
        Some(n) => n,
        None => UNTITLED.to_owned(),
    }
}

/// Whether `text` holds a CR LF pair.
pub fn contains_crlf(text: &str) -> (r: bool)
    ensures
        r == has_crlf(text@),
{
    let s = chars_of(text);
    let n = s.len();
    let mut i: usize = 0;
    while n > 0 && i < n - 1
        invariant
            s@ == text@,
            n == s@.len(),
            forall|j: int| 0 <= j < i && j + 1 < n ==> !(#[trigger] s@[j] == '\r' && s@[j + 1] == '\n'),
        decreases n - i,
    {
        if s[i] == '\r' && s[i + 1] == '\n' {
            return true;
        }
        i = i + 1;
    }
    false
}

impl Document {
    /// The title shown for the document: the file name of its path, or
    /// the untitled name where it has no path.
    pub fn title(&self) -> (t: String)
        ensures
            self.path is None ==> t@ == UNTITLED@,
            self.path matches Some(p) ==> t@ == (match file_name(p) {
                Some(n) => n,
                None => UNTITLED@,
            }),
    {
        let name = match &self.path {
            Some(p) => file_name_of(p),
            None => None,
        };
        title_for(name)
    }

    /// Whether the text differs from what was last opened or saved.
    pub fn is_dirty(&self) -> (r: bool)
        ensures
            r == self.dirty(),
    {
        !(self.text == self.saved_text)
    }

    /// Records an edit: the revision moves on by one, wrapping to 0 past
    /// the largest `u64`.
    pub fn changed(&mut self)
        ensures
            final(self).revision == next_revision(old(self).revision),
            final(self).path == old(self).path,
            final(self).text == old(self).text,
            final(self).saved_text == old(self).saved_text,
            final(self).line_ending == old(self).line_ending,
    {
        self.revision = self.revision.wrapping_add(1);
    }

    /// The document read from `path`, whose contents are `text`: not
    /// dirty, at revision 0, with CRLF line endings exactly where the text
    /// holds a CR LF pair.
    pub fn opened(path: PathBuf, text: String) -> (d: Self)
        ensures
            d.path == Some(path),
            d.text@ == text@,
            d.saved_text@ == text@,
            !d.dirty(),
            d.revision == 0,
            d.line_ending@ == (if has_crlf(text@) {
                "CRLF"@
            } else {
                "LF"@
            }),
    {
        let line_ending = if contains_crlf(text.as_str()) {
            "CRLF"
        } else {
            "LF"
        };
        let saved_text = text.clone();
        Document { path: Some(path), saved_text, text, revision: 0, line_ending }
    }

    /// Records that the text was written to `path`: the document now has
    /// that path and is no longer dirty.
    pub fn saved_to(&mut self, path: PathBuf)
        ensures
            final(self).path == Some(path),
            final(self).text == old(self).text,
            final(self).saved_text@ == old(self).text@,
            !final(self).dirty(),
            final(self).revision == old(self).revision,
            final(self).line_ending == old(self).line_ending,
    {
        self.path = Some(path);
        self.saved_text = self.text.clone();
    }
}

impl Default for Document {
    fn default() -> (d: Self)
        ensures
            d.path is None,
            d.text@ == TEMPLATE@,
            d.saved_text@ == TEMPLATE@,
            d.revision == 0,
            d.line_ending@ == "LF"@,
    {
        Self::new()
    }
}

} // verus!
