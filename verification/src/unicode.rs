//! Character classes of Unicode, as the standard library answers them.

use vstd::prelude::*;

verus! {

/// What `char::is_alphabetic` answers for `c`: whether `c` has the
/// Unicode `Alphabetic` property.
pub uninterp spec fn alphabetic(c: char) -> bool;

/// What `char::is_numeric` answers for `c`: whether `c` is in one of the
/// Unicode general categories for numbers (`Nd`, `Nl`, `No`).
pub uninterp spec fn numeric(c: char) -> bool;

/// Calls `char::is_alphabetic`. The contract only ties the answer to `c`
/// through the name `alphabetic`; the Unicode tables behind it are not
/// restated here.
#[verifier::external_body]
pub(crate) fn is_alphabetic(c: char) -> (r: bool)
    ensures
        r == alphabetic(c),
{
    c.is_alphabetic()
}

/// Calls `char::is_numeric`. The contract only ties the answer to `c`
/// through the name `numeric`; the Unicode tables behind it are not
/// restated here.
#[verifier::external_body]
pub(crate) fn is_numeric(c: char) -> (r: bool)
    ensures
        r == numeric(c),
{
    c.is_numeric()
}

/// `char::is_alphanumeric`, which its documentation defines as
/// `is_alphabetic() || is_numeric()`.
pub(crate) fn is_alphanumeric(c: char) -> (r: bool)
    ensures
        r == (alphabetic(c) || numeric(c)),
{
    is_alphabetic(c) || is_numeric(c)
}

} // verus!
