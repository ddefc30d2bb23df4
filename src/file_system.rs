//! The file-system checks the generator makes before a run.
use vstd::prelude::*;
use std::path::{Path, PathBuf};

verus! {

/// Relies on `Path::join`: `name` under `dir`.
#[verifier::external_body]
pub(crate) fn join_under(dir: &Path, name: &str) -> (r: PathBuf) {
    dir.join(name)
}

/// Relies on `Path::exists`: whether something is there now; it reads the
/// file system, so nothing is stated of it.
#[verifier::external_body]
fn path_exists(p: &PathBuf) -> (r: bool) {
    p.exists()
}

/// Access to template directories.
#[derive(Debug, Default)]
pub struct FileSystem;

impl FileSystem {
    pub fn new() -> (r: Self) {
        FileSystem
    }

    /// Whether the template `template_type` has a directory under
    /// `templates_dir`.
    pub fn template_exists(&self, templates_dir: &Path, template_type: &str) -> (r: bool) {
        let dir = join_under(templates_dir, template_type);
        path_exists(&dir)
    }
}

} // verus!
