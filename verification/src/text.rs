//! The string types that the argument model is built on.
//!
//! Long argument names are stored as `SmolStr` and path values as `PathBuf`.
//! Verus cannot look inside either type, so each gets a ghost "text" (the
//! characters it holds) and a handful of trusted operations that are stated
//! in terms of that text. Everything else in the crate is proved on top of
//! these few declarations.

use smol_str::SmolStr;
use std::path::PathBuf;
use vstd::prelude::*;

verus! {

/// Makes `smol_str::SmolStr` known to the verifier as an opaque type.
#[verifier::external_type_specification]
#[verifier::external_body]
pub struct ExSmolStr(SmolStr);

/// Makes `std::path::PathBuf` known to the verifier as an opaque type.
#[verifier::external_type_specification]
#[verifier::external_body]
pub struct ExPathBuf(PathBuf);

/// The characters held by a `SmolStr`, i.e. what `SmolStr::as_str` yields.
pub uninterp spec fn smol_text(s: SmolStr) -> Seq<char>;

/// The characters of the string a `PathBuf` was built from.
pub uninterp spec fn path_text(p: PathBuf) -> Seq<char>;

/// `SmolStr::new`: builds a `SmolStr` holding exactly the characters of `text`
/// (inline, or on the heap when it is too long for the inline buffer).
#[verifier::external_body]
pub(crate) fn smol_from_str(text: &str) -> (s: SmolStr)
    ensures
        smol_text(s) == text@,
{
    SmolStr::new(text)
}

/// `SmolStr::new_static`: wraps a static string without copying it; the
/// result holds exactly the characters of `text`.
#[verifier::external_body]
pub(crate) fn smol_from_static(text: &'static str) -> (s: SmolStr)
    ensures
        smol_text(s) == text@,
{
    SmolStr::new_static(text)
}

/// `SmolStr::as_str`: borrows the characters held by `s`.
#[verifier::external_body]
pub(crate) fn smol_as_str(s: &SmolStr) -> (text: &str)
    ensures
        text@ == smol_text(*s),
{
    s.as_str()
}

/// `SmolStr`'s `==`: true exactly when both hold the same characters,
/// whatever their internal representation.
#[verifier::external_body]
pub(crate) fn smol_eq(a: &SmolStr, b: &SmolStr) -> (same: bool)
    ensures
        same == (smol_text(*a) == smol_text(*b)),
{
    a == b
}

/// `SmolStr::clone`: the clone holds the same characters as the value it
/// was made from.
pub assume_specification[ <SmolStr as Clone>::clone ](s: &SmolStr) -> (copy: SmolStr)
    ensures
        smol_text(copy) == smol_text(*s),
;

/// `PathBuf::from(String)`: the path takes over the string unchanged, so its
/// text is the text of `text`. Nothing on disk is consulted.
#[verifier::external_body]
pub(crate) fn path_from_string(text: String) -> (p: PathBuf)
    ensures
        path_text(p) == text@,
{
    PathBuf::from(text)
}

/// `PathBuf::clone`: the clone is the same path, with the same text.
pub assume_specification[ <PathBuf as Clone>::clone ](p: &PathBuf) -> (copy: PathBuf)
    ensures
        path_text(copy) == path_text(*p),
;

/// `str`'s `==`: true exactly when both slices hold the same characters.
#[verifier::external_body]
pub(crate) fn str_eq(a: &str, b: &str) -> (same: bool)
    ensures
        same == (a@ == b@),
{
    a == b
}

/// `String::push`: appends the single character `c` to the end of `s`.
#[verifier::external_body]
pub(crate) fn push_char(s: &mut String, c: char)
    ensures
        final(s)@ == old(s)@.push(c),
{
    s.push(c)
}

} // verus!
