//! Settings of a project.
use vstd::prelude::*;

verus! {

pub struct Settings {
    /// The directories in which imported modules are looked for, in order.
    pub source_directories: Vec<String>,
}

impl Settings {
    /// Settings with no source directories.
    pub fn new() -> (r: Self)
        ensures
            r.source_directories@.len() == 0,
    {
        Self { source_directories: Vec::new() }
    }
}

impl Default for Settings {
    fn default() -> (r: Self)
        ensures
            r.source_directories@.len() == 0,
    {
        Self::new()
    }
}

} // verus!
