//! The parts of a file path that the standard library tells apart, by the
//! rules of the platform that the library is built for.

use std::path::Path;
use vstd::prelude::*;

verus! {

/// The last component of a path, as `Path::file_name` of the standard library
/// gives it: none where the path ends in `..` or holds no component at all.
pub uninterp spec fn file_name_of(path: Seq<char>) -> Option<Seq<char>>;

/// The extension of a path, as `Path::extension` of the standard library
/// gives it: what follows the last dot of the file name, and none where
/// there is no file name, or no dot in it but at its start.
pub uninterp spec fn extension_of(path: Seq<char>) -> Option<Seq<char>>;

/// `Path::file_name`, on a path given as text: the result is the last
/// component of `path`, which depends on the characters of `path` alone.
#[verifier::external_body]
pub(crate) fn file_name(path: &str) -> (r: Option<String>)
    ensures
        r matches Some(name) ==> file_name_of(path@) == Some(name@),
        r is None ==> file_name_of(path@) is None,
{
    match Path::new(path).file_name() {
        Some(name) => Some(name.to_string_lossy().into_owned()),
        None => None,
    }
}

/// `Path::extension`, on a path given as text: the result is the extension
/// of `path`, which depends on the characters of `path` alone.
#[verifier::external_body]
pub(crate) fn extension(path: &str) -> (r: Option<String>)
    ensures
        r matches Some(ext) ==> extension_of(path@) == Some(ext@),
        r is None ==> extension_of(path@) is None,
{
    match Path::new(path).extension() {
        Some(ext) => Some(ext.to_string_lossy().into_owned()),
        None => None,
    }
}

} // verus!
