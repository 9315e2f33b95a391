//! Where a state gets its first data from.

pub mod file;

use crate::state::default::Entry;
use vstd::prelude::*;

verus! {

/// Why a seeder could not deliver.
#[derive(Debug)]
pub struct SeedError {
    pub reason: String,
}

/// A source of the data that a state starts with. It is asked once, when the
/// state is set up.
pub trait DataSeeder {
    /// The data, as a payload of entries by key.
    fn load(&self) -> Result<im::HashMap<String, Entry>, SeedError>;
}

} // verus!
