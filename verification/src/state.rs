//! The state layer: the data that the agent serves and the peers exchange.
//! The layers around it pass values along as bytes and do not look inside.

pub mod data_seeder;
pub mod default;
pub mod digest;
pub mod laws;
pub mod storage;

use crate::state::data_seeder::{DataSeeder, SeedError};
use crate::state::default::Entry;
use vstd::prelude::*;
use vstd::slice::slice_to_vec;
use vstd::string::StringSliceAdditionalSpecFns;

verus! {

/// Why a state refused what it was handed.
#[derive(Debug)]
pub struct StateError {
    pub reason: String,
}

/// A state: what the agent and the connection ask of it.
pub trait State {
    /// Called once before anything else: seeds the state from `seeder`, where
    /// one is given, and hands back the seeder's failure, which stops nothing.
    fn init<S: DataSeeder>(&mut self, seeder: Option<&S>) -> Option<SeedError>;

    /// The version of what the state holds.
    fn version(&mut self) -> String;

    /// Takes a payload in.
    fn set(&mut self, value: &im::HashMap<String, Entry>) -> Result<(), StateError>;

    /// The entry under `key`, where the state has one to hand out.
    fn get(&self, key: &str) -> Option<Entry>;

    /// The entry under `key`, or `default` where `get` finds none.
    fn get_or(&self, key: &str, default: Entry) -> Entry;

    /// What differs between the state and `other`.
    fn diff(&self, other: &im::HashMap<String, Entry>) -> Result<
        im::HashMap<String, Entry>,
        StateError,
    >;

    /// All that the state has to hand out.
    fn get_root(&self) -> Option<im::HashMap<String, Entry>>;
}

/// A state that can be copied.
pub trait CloneState: Sized {
    /// A copy of the state.
    fn clone_state(&self) -> Self;
}

impl<T: State + Clone> CloneState for T {
    /// The copy that `clone` makes.
    fn clone_state(&self) -> (copy: T)
        ensures
            cloned::<T>(*self, copy),
    {
        self.clone()
    }
}

/// A value that can give its bytes. The layers pass such values along
/// without knowing what they hold.
pub trait StateValue {
    /// The bytes of the value, or `None` where it cannot be put into bytes.
    fn as_bytes(&self) -> Option<Vec<u8>>;
}

impl StateValue for Vec<u8> {
    /// The bytes themselves.
    fn as_bytes(&self) -> (r: Option<Vec<u8>>)
        ensures
            r is Some && r->0@ == self@,
    {
        Some(slice_to_vec(self.as_slice()))
    }
}

impl StateValue for &'static str {
    /// The text in UTF-8.
    fn as_bytes(&self) -> (r: Option<Vec<u8>>)
        ensures
            r is Some && r->0@ == self.spec_bytes(),
    {
        Some(slice_to_vec(str::as_bytes(self)))
    }
}

/// The bytes of a text, in UTF-8.
pub fn text_bytes(text: &String) -> (bytes: Vec<u8>)
    ensures
        bytes@ == vstd::utf8::encode_utf8(text@),
{
    slice_to_vec(text.as_str().as_bytes())
}

impl StateValue for String {
    /// The text in UTF-8, as `text_bytes` gives it.
    fn as_bytes(&self) -> Option<Vec<u8>> {
        Some(text_bytes(self))
    }
}

} // verus!
