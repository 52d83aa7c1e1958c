//! Paths as text.

use camino::Utf8Path;
use std::path::PathBuf;
use vstd::prelude::*;

verus! {

/// A path of the operating system.
#[verifier::external_type_specification]
#[verifier::external_body]
pub struct ExPathBuf(std::path::PathBuf);

/// What a path holds as text, or `None` if it is not valid UTF-8.
pub uninterp spec fn path_text(path: PathBuf) -> Option<Seq<char>>;

/// The path without its final component, or `None` if there is nothing to take away.
pub uninterp spec fn parent_text(path: Seq<char>) -> Option<Seq<char>>;

/// What stands behind the last dot of the file name, or `None` if there is no extension.
pub uninterp spec fn extension_text(path: Seq<char>) -> Option<Seq<char>>;

/// The same optional text, seen from the outside.
pub open spec fn text_of(s: Option<String>) -> Option<Seq<char>> {
    match s {
        Some(s) => Some(s@),
        None => None,
    }
}

/// `camino::Utf8Path::from_path`: the text of a path, or `None` if it is not valid UTF-8.
#[verifier::external_body]
pub(crate) fn utf8_path(path: &PathBuf) -> (r: Option<String>)
    ensures
        text_of(r) == path_text(*path),
{
    Utf8Path::from_path(path).map(|p| p.as_str().to_owned())
}

/// `camino::Utf8Path::parent`. What the components of a path are is a matter of the platform;
/// on a given one the parent depends on the path alone, and only this is claimed.
#[verifier::external_body]
pub(crate) fn utf8_parent(path: &str) -> (r: Option<String>)
    ensures
        text_of(r) == parent_text(path@),
{
    Utf8Path::new(path).parent().map(|p| p.as_str().to_owned())
}

/// `camino::Utf8Path::extension`. What the file name of a path is is a matter of the platform;
/// on a given one the extension depends on the path alone, and only this is claimed.
#[verifier::external_body]
pub(crate) fn utf8_extension(path: &str) -> (r: Option<String>)
    ensures
        text_of(r) == extension_text(path@),
{
    Utf8Path::new(path).extension().map(|e| e.to_owned())
}

} // verus!
