//! The empty working directory a CLI backend runs in. Creating and removing
//! it is file-system work and stays with the caller.

use vstd::prelude::*;

verus! {

/// `std::path::PathBuf`, declared so a path can be carried: it is opaque
/// here, and nothing is claimed of what it holds.
#[verifier::external_type_specification]
#[verifier::external_body]
pub struct ExPathBuf(std::path::PathBuf);

/// Empty working directory for CLI backends — prompts are untrusted, so the
/// spawned CLI must not see the shared temp dir or the repo.
pub struct RunDir(pub std::path::PathBuf);

impl RunDir {
    /// The directory itself.
    pub fn path(&self) -> (p: &std::path::PathBuf)
        ensures
            *p == self.0,
    {
        &self.0
    }
}

} // verus!
