//! Paths are kept as text. What the standard library makes of a path (its
//! stem, its last component, a changed extension, a joined path) is asked of
//! `std::path` itself, which goes by the path syntax of the platform; each
//! answer has a name that contracts can speak of.

use std::path::Path;
use vstd::prelude::*;

verus! {

/// What `Path::file_stem` returns for the path written as `path`.
pub uninterp spec fn file_stem_of(path: Seq<char>) -> Option<Seq<char>>;

/// What `Path::file_name` returns for the path written as `path`.
pub uninterp spec fn file_name_of(path: Seq<char>) -> Option<Seq<char>>;

/// What `Path::with_extension` returns for the path written as `path`.
pub uninterp spec fn with_extension_of(path: Seq<char>, extension: Seq<char>) -> Seq<char>;

/// What `Path::join` returns for the paths written as `base` and `part`.
pub uninterp spec fn joined(base: Seq<char>, part: Seq<char>) -> Seq<char>;

/// Calls `Path::file_stem`. The contract only gives the answer its name: the
/// stem depends on nothing but the path's text.
#[verifier::external_body]
pub(crate) fn file_stem(path: &str) -> (stem: Option<String>)
    ensures
        stem.deep_view() == file_stem_of(path@),
{
    Path::new(path).file_stem().map(|stem| stem.to_string_lossy().into_owned())
}

/// Calls `Path::file_name`. The contract only gives the answer its name: the
/// last component depends on nothing but the path's text.
#[verifier::external_body]
pub(crate) fn file_name(path: &str) -> (name: Option<String>)
    ensures
        name.deep_view() == file_name_of(path@),
{
    Path::new(path).file_name().map(|name| name.to_string_lossy().into_owned())
}

/// An extension that holds no path separator.
pub open spec fn is_plain_extension(extension: Seq<char>) -> bool {
    forall|i: int| 0 <= i < extension.len() ==> extension[i] != '/' && extension[i] != '\\'
}

/// Calls `Path::with_extension`, which refuses an extension that holds a
/// path separator. The contract only gives the answer its name: the new
/// path depends on nothing but the two texts.
#[verifier::external_body]
pub(crate) fn with_extension(path: &str, extension: &str) -> (changed: String)
    requires
        is_plain_extension(extension@),
    ensures
        changed@ == with_extension_of(path@, extension@),
{
    Path::new(path).with_extension(extension).to_string_lossy().into_owned()
}

/// Calls `Path::join`. The contract only gives the answer its name: the joined
/// path depends on nothing but the two texts.
#[verifier::external_body]
pub(crate) fn join(base: &str, part: &str) -> (whole: String)
    ensures
        whole@ == joined(base@, part@),
{
    Path::new(base).join(part).to_string_lossy().into_owned()
}

} // verus!
