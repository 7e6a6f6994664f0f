//! File paths, held as text.

use vstd::prelude::*;

verus! {

/// What `Path::join` yields for two path texts.
pub uninterp spec fn joined_path(base: Seq<char>, part: Seq<char>) -> Seq<char>;

/// Joins a path and a further component.
///
/// Trusted: calls `std::path::Path::join` and converts the result back to a
/// `String` (paths built here from `String`s are valid UTF-8); the result is
/// named `joined_path`.
#[verifier::external_body]
pub(crate) fn join_path(base: &str, part: &str) -> (p: String)
    ensures
        p@ == joined_path(base@, part@),
{
    std::path::Path::new(base).join(part).to_string_lossy().into_owned()
}

/// What `Path::extension` yields for a path text.
pub uninterp spec fn path_extension(p: Seq<char>) -> Option<Seq<char>>;

/// The extension of the file a path names, if any.
///
/// Trusted: calls `std::path::Path::extension` and converts the result to a
/// `String`; the result is named `path_extension`.
#[verifier::external_body]
pub(crate) fn extension_of(p: &str) -> (e: Option<String>)
    ensures
        match e {
            Some(x) => path_extension(p@) == Some(x@),
            None => path_extension(p@) is None,
        },
{
    std::path::Path::new(p).extension().and_then(|e| e.to_str()).map(|e| e.to_string())
}

} // verus!
