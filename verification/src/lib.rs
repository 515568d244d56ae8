//! Verified core of a small editor for `.cxxp` contracts: the document
//! model, text indexing, syntax highlighting, search and replace, the
//! verification scheduler and the decisions of the editor session.

pub mod text;
pub mod unicode;
pub mod highlight;
pub mod diagnostics;
pub mod search;
pub mod document;
pub mod verification;
pub mod session;
pub mod format;
pub mod editor;
pub mod status;
