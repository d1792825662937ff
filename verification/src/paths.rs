//! File-system paths, carried through the library as opaque values.
use vstd::prelude::*;

verus! {

#[verifier::external_type_specification]
#[verifier::external_body]
pub struct ExPathBuf(std::path::PathBuf);

/// `Clone` of `std::path::PathBuf`: a path equal to the one cloned.
pub assume_specification[ <std::path::PathBuf as Clone>::clone ](p: &std::path::PathBuf) -> (r:
    std::path::PathBuf)
    ensures
        r == *p,
;

/// `std::path::PathBuf::new`: an empty path.
#[verifier::external_body]
pub(crate) fn empty_path() -> (p: std::path::PathBuf) {
    std::path::PathBuf::new()
}

/// `std::path::Path::join`: `dir` with `name` appended as a further
/// component. Paths are opaque to the library, so nothing is stated of the result.
#[verifier::external_body]
pub(crate) fn join_path(dir: &std::path::PathBuf, name: &str) -> (p: std::path::PathBuf) {
    dir.join(name)
}

/// `std::path::Path::exists`: whether the file system holds something at
/// `p`; that depends on the disk, so nothing is stated of it.
#[verifier::external_body]
pub(crate) fn path_exists(p: &std::path::PathBuf) -> (b: bool) {
    p.exists()
}

} // verus!
