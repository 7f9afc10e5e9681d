//! File-system paths: carried as values the library does not look into, and
//! built with the standard library's own operations.
use vstd::prelude::*;

verus! {

/// A file-system path, carried as it is.
#[verifier::external_type_specification]
#[verifier::external_body]
pub struct ExPathBuf(std::path::PathBuf);

/// `PathBuf::clone` is documented to return a copy of the path.
pub assume_specification[ <std::path::PathBuf as Clone>::clone ](p: &std::path::PathBuf) -> (copy: std::path::PathBuf)
    ensures
        copy == *p,
;

/// The path that `PathBuf::from` makes of a text.
pub uninterp spec fn path_from_text(text: Seq<char>) -> std::path::PathBuf;

/// Calls `PathBuf::from` on a text. The path holds the text's bytes as they
/// are, so the same text always gives the same path.
#[verifier::external_body]
pub(crate) fn path_of(text: &str) -> (p: std::path::PathBuf)
    ensures
        p == path_from_text(text@),
{
    std::path::PathBuf::from(text)
}

/// The path that `Path::join` makes of `base` and `part` (with the
/// separator of the platform the program was built for).
pub uninterp spec fn joined(base: std::path::PathBuf, part: Seq<char>) -> std::path::PathBuf;

/// Calls `Path::join`: `part` adjoined to `base`, or `part` alone when it is
/// absolute. Nothing of that rule is stated here; the result is named, as a
/// function of the two arguments.
#[verifier::external_body]
pub(crate) fn join(base: &std::path::PathBuf, part: &str) -> (p: std::path::PathBuf)
    ensures
        p == joined(*base, part@),
{
    base.join(part)
}

/// The text that `Path::display` shows for a path.
pub uninterp spec fn shown(p: std::path::PathBuf) -> Seq<char>;

/// Writes a path as `Path::display` does (bytes that are not valid Unicode
/// replaced). The text is named, as a function of the path.
#[verifier::external_body]
pub(crate) fn display_text(p: &std::path::PathBuf) -> (text: String)
    ensures
        text@ == shown(*p),
{
    format!("{}", p.display())
}

} // verus!
