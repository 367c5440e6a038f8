//! File-system path operations of `std::path`, on paths held as strings.
//!
//! How `std::path` splits and joins paths depends on the platform, so the
//! result of each operation is given a name rather than rebuilt here; the
//! engine's rules are stated over those names.

use std::path::{Component, Path};
use vstd::prelude::*;

verus! {

/// The kinds of component `Path::components` yields.
#[derive(Clone, Copy, Debug, PartialEq, Eq, Structural)]
pub enum PathPart {
    Prefix,
    RootDir,
    CurDir,
    ParentDir,
    Normal,
}

/// The parent of path `p` (`Path::parent`), `None` for a root or an empty path.
pub uninterp spec fn path_parent(p: Seq<char>) -> Option<Seq<char>>;

/// The final component of path `p` (`Path::file_name`), `None` when `p`
/// ends in `..` or is a root.
pub uninterp spec fn path_file_name(p: Seq<char>) -> Option<Seq<char>>;

/// `base` with `rel` adjoined (`Path::join`).
pub uninterp spec fn path_join(base: Seq<char>, rel: Seq<char>) -> Seq<char>;

/// The extension of the file name of `p` (`Path::extension`).
pub uninterp spec fn path_extension(p: Seq<char>) -> Option<Seq<char>>;

/// Whether `p` is absolute (`Path::is_absolute`).
pub uninterp spec fn path_is_absolute(p: Seq<char>) -> bool;

/// The kinds of the components of `p`, in order (`Path::components`).
pub uninterp spec fn path_parts(p: Seq<char>) -> Seq<PathPart>;

/// Whether `base` is a component-wise prefix of `p` (`Path::starts_with`).
pub uninterp spec fn path_starts_with(p: Seq<char>, base: Seq<char>) -> bool;

/// `p` with its extension replaced by `ext` (`Path::with_extension`).
pub uninterp spec fn path_with_extension(p: Seq<char>, ext: Seq<char>) -> Seq<char>;

/// Calls `Path::parent`; the contract claims only that the result is the
/// named `path_parent` of the argument.
#[verifier::external_body]
pub(crate) fn parent_of(p: &str) -> (r: Option<String>)
    ensures
        match r {
            Some(q) => path_parent(p@) == Some(q@),
            None => path_parent(p@) is None,
        },
{
    match Path::new(p).parent() {
        Some(q) => Some(q.to_string_lossy().into_owned()),
        None => None,
    }
}

/// Calls `Path::file_name`; the contract claims only that the result is the
/// named `path_file_name` of the argument.
#[verifier::external_body]
pub(crate) fn file_name_of(p: &str) -> (r: Option<String>)
    ensures
        match r {
            Some(q) => path_file_name(p@) == Some(q@),
            None => path_file_name(p@) is None,
        },
{
    match Path::new(p).file_name() {
        Some(q) => Some(q.to_string_lossy().into_owned()),
        None => None,
    }
}

/// Calls `Path::join`; the contract claims only that the result is the
/// named `path_join` of the arguments.
#[verifier::external_body]
pub(crate) fn join_path(base: &str, rel: &str) -> (r: String)
    ensures
        r@ == path_join(base@, rel@),
{
    Path::new(base).join(rel).to_string_lossy().into_owned()
}

/// Calls `Path::extension`; the contract claims only that the result is the
/// named `path_extension` of the argument.
#[verifier::external_body]
pub(crate) fn extension_of(p: &str) -> (r: Option<String>)
    ensures
        match r {
            Some(q) => path_extension(p@) == Some(q@),
            None => path_extension(p@) is None,
        },
{
    match Path::new(p).extension() {
        Some(q) => Some(q.to_string_lossy().into_owned()),
        None => None,
    }
}

/// Calls `Path::is_absolute`; the contract claims only that the result is
/// the named `path_is_absolute` of the argument.
#[verifier::external_body]
pub(crate) fn is_absolute_path(p: &str) -> (r: bool)
    ensures
        r == path_is_absolute(p@),
{
    Path::new(p).is_absolute()
}

/// Calls `Path::components` and keeps the kind of each component; the
/// contract claims only that the result is the named `path_parts`.
#[verifier::external_body]
pub(crate) fn parts_of(p: &str) -> (r: Vec<PathPart>)
    ensures
        r@ == path_parts(p@),
{
    Path::new(p).components().map(|c| match c {
        Component::Prefix(_) => PathPart::Prefix,
        Component::RootDir => PathPart::RootDir,
        Component::CurDir => PathPart::CurDir,
        Component::ParentDir => PathPart::ParentDir,
        Component::Normal(_) => PathPart::Normal,
    }).collect()
}

/// Calls `Path::starts_with`; the contract claims only that the result is
/// the named `path_starts_with` of the arguments.
#[verifier::external_body]
pub(crate) fn path_has_prefix(p: &str, base: &str) -> (r: bool)
    ensures
        r == path_starts_with(p@, base@),
{
    Path::new(p).starts_with(Path::new(base))
}

/// Calls `Path::with_extension`; the contract claims only that the result
/// is the named `path_with_extension` of the arguments. The extension may
/// hold no path separator (a slash, or on Windows a backslash): `PathBuf::set_extension`
/// panics on one.
#[verifier::external_body]
pub(crate) fn with_extension(p: &str, ext: &str) -> (r: String)
    requires
        !ext@.contains('/'),
        !ext@.contains('\\'),
    ensures
        r@ == path_with_extension(p@, ext@),
{
    Path::new(p).with_extension(ext).to_string_lossy().into_owned()
}

} // verus!
