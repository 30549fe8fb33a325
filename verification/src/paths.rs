//! File-system paths, as far as the configuration joins and inspects them.

use std::path::{Path, PathBuf};
use vstd::prelude::*;
use vstd::string::*;

verus! {

/// `std::path::Path`: a borrowed path, of which nothing is known but what
/// the functions below say.
#[verifier::external_type_specification]
#[verifier::external_body]
pub struct ExPath(Path);

/// `std::path::PathBuf`: an owned path.
#[verifier::external_type_specification]
#[verifier::external_body]
pub struct ExPathBuf(PathBuf);

/// The bytes that a path is made of.
pub uninterp spec fn path_bytes(path: &Path) -> Seq<u8>;

/// The bytes that an owned path is made of.
pub uninterp spec fn owned_path_bytes(path: &PathBuf) -> Seq<u8>;

/// The bytes of the path that `Path::join` makes of a path and a relative or
/// absolute path to go on with, each given by its bytes.
pub uninterp spec fn joined_path(base: Seq<u8>, rest: Seq<u8>) -> Seq<u8>;

/// Whether `Path::extension` finds an extension in the last component of the
/// path of the given bytes.
pub uninterp spec fn path_has_extension(path: Seq<u8>) -> bool;

/// `PathBuf::as_path`: the path that an owned path holds.
#[verifier::external_body]
pub(crate) fn as_path(path: &PathBuf) -> (borrowed: &Path)
    ensures
        path_bytes(borrowed) == owned_path_bytes(path),
{
    path.as_path()
}

/// `Path::join`: the path that goes on from `base` with `rest`, as the
/// platform's rules for paths have it.
#[verifier::external_body]
pub(crate) fn join(base: &Path, rest: &str) -> (joined: PathBuf)
    ensures
        owned_path_bytes(&joined) == joined_path(path_bytes(base), rest.spec_bytes()),
{
    base.join(rest)
}

/// `Path::extension`: whether the last component of the path has an
/// extension.
#[verifier::external_body]
pub(crate) fn has_extension(path: &Path) -> (found: bool)
    ensures
        found == path_has_extension(path_bytes(path)),
{
    path.extension().is_some()
}

/// `PathBuf::from`, for a string: the path that a text names. Its bytes are
/// those of the text.
#[verifier::external_body]
pub(crate) fn path_from(text: &str) -> (path: PathBuf)
    ensures
        owned_path_bytes(&path) == text.spec_bytes(),
{
    PathBuf::from(text)
}

/// The bytes of the path without its last component, as `Path::parent`
/// gives it, for a path of the given bytes; nothing where the path ends in a
/// root or is empty.
pub uninterp spec fn parent_path(path: Seq<u8>) -> Option<Seq<u8>>;

/// `Path::parent`: the path without its last component.
#[verifier::external_body]
pub(crate) fn parent(path: &Path) -> (up: Option<&Path>)
    ensures
        match up {
            Some(p) => parent_path(path_bytes(path)) == Some(path_bytes(p)),
            None => parent_path(path_bytes(path)) is None,
        },
{
    path.parent()
}

/// `Path::to_path_buf`: an owned path of the same bytes.
#[verifier::external_body]
pub(crate) fn to_path_buf(path: &Path) -> (owned: PathBuf)
    ensures
        owned_path_bytes(&owned) == path_bytes(path),
{
    path.to_path_buf()
}

} // verus!
