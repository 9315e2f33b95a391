//! The configuration: one set of settings for each layer.

use vstd::prelude::*;

verus! {

/// The settings of the three layers.
#[derive(Debug)]
pub struct Spec {
    pub agent: crate::agent::default::Default,
    pub state: crate::state::default::Default,
    pub connection: crate::connection::default::Default,
}

/// A configuration: the version of its format, and the settings.
#[derive(Debug)]
pub struct Config {
    pub version: String,
    pub spec: Spec,
}

/// The file that holds the configuration: the one named, else `config.yml`.
pub fn config_file(named: Option<String>) -> (path: String)
    ensures
        path@ == match named {
            Some(name) => name@,
            None => "config.yml"@,
        },
{
    match named {
        Some(name) => name,
        None => "config.yml".to_owned(),
    }
}

} // verus!
