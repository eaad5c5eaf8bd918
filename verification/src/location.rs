//! Where the quota file is.
use std::path::PathBuf;
use vstd::prelude::*;

verus! {

/// Declares `std::path::PathBuf`, the path of a file. It is opaque.
#[verifier::external_type_specification]
#[verifier::external_body]
pub struct ExPathBuf(std::path::PathBuf);

/// What `Path::join` returns for a base path and a name.
pub uninterp spec fn joined(base: Seq<char>, name: Seq<char>) -> PathBuf;

/// Calls `Path::join` on the path that `base` spells, with `name`.
///
/// Trusted: the result depends on the two texts alone. How the path is spelled
/// is left unsaid, since paths are opaque.
#[verifier::external_body]
pub(crate) fn join_path(base: &str, name: &str) -> (path: PathBuf)
    ensures
        path == joined(base@, name@),
{
    std::path::Path::new(base).join(name)
}

} // verus!
