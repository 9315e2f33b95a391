//! A seeder that reads a file.

use vstd::prelude::*;

verus! {

/// The file to read the first data from. Reading it is left to the program
/// that holds the file system.
#[derive(Debug)]
pub struct File {
    pub filename: String,
}

impl File {
    /// A seeder for the file of the given name.
    pub fn new(filename: String) -> (file: Self)
        ensures
            file.filename == filename,
    {
        File { filename }
    }
}

} // verus!
