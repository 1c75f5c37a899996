//! File-system path manipulation on UTF-8 path strings, through
//! `std::path::Path` (with the separator rules of the target platform).
use vstd::prelude::*;

verus! {

/// The path with the extension of its file name set to `ext`
/// (as `Path::with_extension`).
pub uninterp spec fn path_with_extension(path: Seq<char>, ext: Seq<char>) -> Seq<char>;

/// The file name of the path without its extension, if it has a file name
/// (as `Path::file_stem`).
pub uninterp spec fn path_file_stem(path: Seq<char>) -> Option<Seq<char>>;

/// The final component of the path, if it names a file (as
/// `Path::file_name`).
pub uninterp spec fn path_file_name(path: Seq<char>) -> Option<Seq<char>>;

/// The path with its file name replaced by `name` (as `Path::with_file_name`).
pub uninterp spec fn path_with_file_name(path: Seq<char>, name: Seq<char>) -> Seq<char>;

/// `part` appended to `base` as a new component (as `Path::join`).
pub uninterp spec fn path_join(base: Seq<char>, part: Seq<char>) -> Seq<char>;

/// The extension of the path's file name, if it has one (as
/// `Path::extension`).
pub uninterp spec fn path_extension(path: Seq<char>) -> Option<Seq<char>>;

/// Whether the leading components of `path` are those of `base` (as
/// `Path::starts_with`, which compares components, not characters).
pub uninterp spec fn path_starts_with(path: Seq<char>, base: Seq<char>) -> bool;

/// Trusted: wraps `Path::with_extension`; the result, converted back to a
/// string, is named `path_with_extension` of the arguments. Both arguments
/// are UTF-8, so the conversion loses nothing. Setting an extension that
/// holds a path separator panics, so such extensions are not admitted.
#[verifier::external_body]
pub(crate) fn with_extension(path: &str, ext: &str) -> (r: String)
    requires
        !ext@.contains('/'),
        !ext@.contains('\\'),
    ensures
        r@ == path_with_extension(path@, ext@),
{
    std::path::Path::new(path).with_extension(ext).to_string_lossy().into_owned()
}

/// Trusted: wraps `Path::file_stem`; the result, converted to a string, is
/// named `path_file_stem` of the path.
#[verifier::external_body]
pub(crate) fn file_stem(path: &str) -> (r: Option<String>)
    ensures
        match r {
            Some(s) => path_file_stem(path@) == Some(s@),
            None => path_file_stem(path@) is None,
        },
{
    std::path::Path::new(path).file_stem().map(|s| s.to_string_lossy().into_owned())
}

/// Trusted: wraps `Path::with_file_name`; the result, converted back to a
/// string, is named `path_with_file_name` of the arguments.
#[verifier::external_body]
pub(crate) fn with_file_name(path: &str, name: &str) -> (r: String)
    ensures
        r@ == path_with_file_name(path@, name@),
{
    std::path::Path::new(path).with_file_name(name).to_string_lossy().into_owned()
}

/// Trusted: wraps `Path::join`; the result, converted back to a string, is
/// named `path_join` of the arguments.
#[verifier::external_body]
pub(crate) fn join(base: &str, part: &str) -> (r: String)
    ensures
        r@ == path_join(base@, part@),
{
    std::path::Path::new(base).join(part).to_string_lossy().into_owned()
}

/// Trusted: wraps `Path::file_name`; the result, converted to a string, is
/// named `path_file_name` of the path.
#[verifier::external_body]
pub(crate) fn file_name(path: &str) -> (r: Option<String>)
    ensures
        match r {
            Some(s) => path_file_name(path@) == Some(s@),
            None => path_file_name(path@) is None,
        },
{
    std::path::Path::new(path).file_name().map(|s| s.to_string_lossy().into_owned())
}

/// Trusted: wraps `Path::extension`; the result, converted to a string, is
/// named `path_extension` of the path.
#[verifier::external_body]
pub(crate) fn extension(path: &str) -> (r: Option<String>)
    ensures
        match r {
            Some(s) => path_extension(path@) == Some(s@),
            None => path_extension(path@) is None,
        },
{
    std::path::Path::new(path).extension().map(|s| s.to_string_lossy().into_owned())
}

/// Trusted: wraps `Path::starts_with`; the result is named
/// `path_starts_with` of the arguments.
#[verifier::external_body]
pub(crate) fn starts_with(path: &str, base: &str) -> (r: bool)
    ensures
        r == path_starts_with(path@, base@),
{
    std::path::Path::new(path).starts_with(base)
}

} // verus!
